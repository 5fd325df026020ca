use arrow_array::{Array, ListArray, StringArray, UInt32Array};
use arrow_schema::DataType;

use infra_hex_rs::batch::{record_batch, summary_batch};
use infra_hex_rs::cells::HexCell;
use infra_hex_rs::summary::{summarize_cells, SummaryRow};
use infra_hex_rs::table::RecordRow;

fn row(hex_id: &str, pipe_count: usize) -> SummaryRow {
    SummaryRow { hex_id: hex_id.to_string(), pipe_count, cell: None }
}

#[test]
fn summary_batch_holds_ids_and_counts() {
    let rows = vec![row("A", 2), row("B", 2), row("C", 1)];
    let table = summary_batch(&rows).unwrap();
    let batch = &table.batch;

    assert_eq!(batch.num_rows(), 3);
    assert_eq!(batch.num_columns(), 2);
    let schema = batch.schema();
    assert_eq!(schema.field(0).name(), "hex_id");
    assert_eq!(schema.field(0).data_type(), &DataType::Utf8);
    assert!(!schema.field(0).is_nullable());
    assert_eq!(schema.field(1).name(), "pipe_count");
    assert_eq!(schema.field(1).data_type(), &DataType::UInt32);
    assert!(!schema.field(1).is_nullable());

    let ids = batch.column(0).as_any().downcast_ref::<StringArray>().unwrap();
    let counts = batch.column(1).as_any().downcast_ref::<UInt32Array>().unwrap();
    assert_eq!(ids.iter().collect::<Vec<_>>(), vec![Some("A"), Some("B"), Some("C")]);
    assert_eq!(counts.values().to_vec(), vec![2, 2, 1]);
    assert_eq!(counts.null_count(), 0);
}

#[test]
fn summary_batch_of_nothing_has_no_rows() {
    let table = summary_batch(&vec![]).unwrap();
    assert_eq!(table.batch.num_rows(), 0);
    assert_eq!(table.batch.num_columns(), 2);
}

#[test]
fn summary_batch_cuts_counts_to_32_bits() {
    let rows = vec![row("A", 7), row("B", (1usize << 32) + 5)];
    let table = summary_batch(&rows).unwrap();
    let counts = table.batch.column(1).as_any().downcast_ref::<UInt32Array>().unwrap();
    assert_eq!(counts.values().to_vec(), vec![7, 5]);
}

#[test]
fn summary_batch_from_a_summary() {
    let cell = |id: &str| HexCell { id: id.to_string(), zoom_level: 9, row: 1, col: 2 };
    let lists = vec![vec![cell("A"), cell("B")], vec![cell("B")], vec![cell("A"), cell("C")]];
    let rows = summarize_cells(&lists, &None, false);
    let table = summary_batch(&rows).unwrap();
    let ids = table.batch.column(0).as_any().downcast_ref::<StringArray>().unwrap();
    let counts = table.batch.column(1).as_any().downcast_ref::<UInt32Array>().unwrap();
    assert_eq!(ids.value(0), "A");
    assert_eq!(counts.value(0), 2);
    assert_eq!(ids.value(2), "C");
    assert_eq!(counts.value(2), 1);
}

fn record_row(asset_id: Option<&str>, material: Option<&str>, hex_ids: &[&str]) -> RecordRow {
    RecordRow {
        asset_id: asset_id.map(|s| s.to_string()),
        pipe_type: Some("MP".to_string()),
        material: material.map(|s| s.to_string()),
        pressure: None,
        hex_ids: hex_ids.iter().map(|s| s.to_string()).collect(),
        cells: None,
    }
}

#[test]
fn record_batch_holds_attributes_and_lists() {
    let rows = vec![
        record_row(Some("TEST-001"), Some("PE"), &["A", "B"]),
        record_row(None, None, &[]),
        record_row(Some("TEST-003"), Some("ST"), &["C"]),
    ];
    let table = record_batch(&rows).unwrap();
    let batch = &table.batch;

    assert_eq!(batch.num_rows(), 3);
    assert_eq!(batch.num_columns(), 5);
    let schema = batch.schema();
    let names: Vec<&str> = schema.fields().iter().map(|f| f.name().as_str()).collect();
    assert_eq!(names, vec!["asset_id", "pipe_type", "material", "pressure", "hex_ids"]);
    for i in 0..4 {
        assert_eq!(schema.field(i).data_type(), &DataType::Utf8);
        assert!(schema.field(i).is_nullable());
    }
    assert!(!schema.field(4).is_nullable());
    match schema.field(4).data_type() {
        DataType::List(item) => {
            assert_eq!(item.name(), "item");
            assert_eq!(item.data_type(), &DataType::Utf8);
            assert!(item.is_nullable());
        }
        other => panic!("expected a list column, got {:?}", other),
    }

    let text = |i: usize| -> Vec<Option<String>> {
        batch
            .column(i)
            .as_any()
            .downcast_ref::<StringArray>()
            .unwrap()
            .iter()
            .map(|v| v.map(|s| s.to_string()))
            .collect()
    };
    assert_eq!(
        text(0),
        vec![Some("TEST-001".to_string()), None, Some("TEST-003".to_string())]
    );
    assert_eq!(text(1), vec![Some("MP".to_string()); 3]);
    assert_eq!(text(2), vec![Some("PE".to_string()), None, Some("ST".to_string())]);
    assert_eq!(text(3), vec![None, None, None]);

    let lists = batch.column(4).as_any().downcast_ref::<ListArray>().unwrap();
    assert_eq!(lists.null_count(), 0);
    let read: Vec<Vec<String>> = (0..lists.len())
        .map(|i| {
            let values = lists.value(i);
            let values = values.as_any().downcast_ref::<StringArray>().unwrap();
            values.iter().map(|v| v.unwrap().to_string()).collect()
        })
        .collect();
    assert_eq!(
        read,
        vec![vec!["A".to_string(), "B".to_string()], vec![], vec!["C".to_string()]]
    );
}

#[test]
fn record_batch_of_nothing_has_no_rows() {
    let table = record_batch(&vec![]).unwrap();
    assert_eq!(table.batch.num_rows(), 0);
    assert_eq!(table.batch.num_columns(), 5);
}

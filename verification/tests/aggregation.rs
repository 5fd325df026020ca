use infra_hex_rs::aggregate::{
    collect_cells, extract_cells, resolve_each, to_hex_summary, to_hex_summary_no_geom,
    to_hex_summary_within, to_record_batch, to_record_batch_no_geom, to_record_batch_within,
};
use infra_hex_rs::boundary::{
    to_hex_summary_for, to_record_batch_for, union_of_cells, BoundaryFilter,
};
use infra_hex_rs::cells::{find_cell, restriction_allows, CellIdSet, HexCell};
use infra_hex_rs::error::InfraHexError;
use infra_hex_rs::geometry::{GeoJsonValue, LineString};
use infra_hex_rs::hex::get_hex_cells;
use infra_hex_rs::records::{CadentPipelineRecord, PipelineRecord};
use infra_hex_rs::summary::{rank_rows, summarize_cells, tally_cells, SummaryRow};
use infra_hex_rs::table::{record_membership, record_row, record_rows, PipelineData};
use infra_hex_rs::types::GeoPoint2d;

fn cell(id: &str) -> HexCell {
    HexCell { id: id.to_string(), zoom_level: 10, row: 0, col: 0 }
}

fn cell_at(id: &str, row: i64, col: i64) -> HexCell {
    HexCell { id: id.to_string(), zoom_level: 10, row, col }
}

fn cells(ids: &[&str]) -> Vec<HexCell> {
    ids.iter().map(|id| cell(id)).collect()
}

fn set_of(ids: &[&str]) -> CellIdSet {
    let mut set = CellIdSet::new();
    for id in ids {
        set.insert(&id.to_string());
    }
    set
}

fn counts(rows: &[SummaryRow]) -> Vec<(String, usize)> {
    rows.iter().map(|row| (row.hex_id.clone(), row.pipe_count)).collect()
}

fn pairs(expected: &[(&str, usize)]) -> Vec<(String, usize)> {
    expected.iter().map(|(id, n)| (id.to_string(), *n)).collect()
}

/// A record whose line runs through the points `(k, 0)` for the given `k`.
fn record(asset_id: Option<&str>, points: &[f64]) -> PipelineRecord<f64> {
    CadentPipelineRecord {
        geo_point_2d: GeoPoint2d { lon: -2.248, lat: 53.480 },
        geo_shape: Some(GeoJsonValue::LineString(
            points.iter().map(|x| vec![*x, 0.0]).collect(),
        )),
        pipe_type: Some("MP".to_string()),
        pressure: None,
        material: Some("PE".to_string()),
        diameter: Some(63.0),
        diam_unit: Some("MM".to_string()),
        carr_mat: None,
        carr_dia: None,
        carr_di_un: None,
        asset_id: asset_id.map(|s| s.to_string()),
        depth: None,
        ag_ind: None,
        inst_date: None,
    }
}

/// Stands in for the grid: the point `(k, 0)` lies in the cell named by the
/// `k`-th letter.
fn letter_grid(line: &LineString<f64>, zoom: u8) -> Result<Vec<HexCell>, InfraHexError> {
    if zoom > 15 {
        return Err(InfraHexError::HexGrid(format!("Invalid zoom level: {}", zoom)));
    }
    Ok(line
        .0
        .iter()
        .map(|c| HexCell {
            id: ((b'A' + c.x as u8) as char).to_string(),
            zoom_level: zoom,
            row: c.y as i64,
            col: c.x as i64,
        })
        .collect())
}

#[test]
fn three_records_touching_a_b_c() {
    // Cells {"A","B"}, {"B"}, {"A","C"}; no boundary.
    let lists = vec![cells(&["A", "B"]), cells(&["B"]), cells(&["A", "C"])];
    let rows = summarize_cells(&lists, &None, false);
    assert_eq!(counts(&rows), pairs(&[("A", 2), ("B", 2), ("C", 1)]));
    assert!(rows.iter().all(|row| row.cell.is_none()));
}

#[test]
fn ties_keep_the_order_of_first_meeting() {
    let lists = vec![cells(&["B", "A"]), cells(&["C", "A", "B"]), cells(&["D", "C"])];
    let rows = summarize_cells(&lists, &None, false);
    // B, A and C are each touched twice and were met in this order.
    assert_eq!(counts(&rows), pairs(&[("B", 2), ("A", 2), ("C", 2), ("D", 1)]));
}

#[test]
fn a_record_counts_once_for_a_cell_it_revisits() {
    let lists = vec![cells(&["A", "B", "A", "A", "B"]), cells(&["A", "A"])];
    let rows = summarize_cells(&lists, &None, false);
    assert_eq!(counts(&rows), pairs(&[("A", 2), ("B", 1)]));
}

#[test]
fn summary_of_nothing_is_empty() {
    assert!(summarize_cells(&vec![], &None, true).is_empty());
    assert!(summarize_cells(&vec![vec![], vec![]], &None, true).is_empty());
}

#[test]
fn summary_carries_the_cell_first_met() {
    let lists = vec![
        vec![cell_at("A", 1, 1), cell_at("B", 2, 2)],
        vec![cell_at("A", 9, 9), cell_at("B", 8, 8), cell_at("C", 3, 3)],
        vec![cell_at("B", 7, 7)],
    ];
    let rows = summarize_cells(&lists, &None, true);
    assert_eq!(counts(&rows), pairs(&[("B", 3), ("A", 2), ("C", 1)]));
    assert_eq!(rows[0].cell, Some(cell_at("B", 2, 2)));
    assert_eq!(rows[1].cell, Some(cell_at("A", 1, 1)));
    assert_eq!(rows[2].cell, Some(cell_at("C", 3, 3)));
}

#[test]
fn empty_boundary_lets_nothing_through() {
    let lists = vec![cells(&["A", "B"]), cells(&["B"])];
    let nothing = Some(CellIdSet::new());
    assert!(summarize_cells(&lists, &nothing, false).is_empty());
    assert!(record_membership(&lists[0], &nothing).is_empty());
    // No boundary is something else: everything passes.
    assert_eq!(summarize_cells(&lists, &None, false).len(), 2);
}

#[test]
fn boundary_drops_the_cells_outside() {
    let lists = vec![cells(&["A", "B"]), cells(&["B"]), cells(&["A", "C"])];
    let valid = Some(set_of(&["A", "C", "Z"]));
    let rows = summarize_cells(&lists, &valid, false);
    assert_eq!(counts(&rows), pairs(&[("A", 2), ("C", 1)]));
}

#[test]
fn boundary_of_all_touched_cells_changes_nothing() {
    let lists = vec![
        cells(&["A", "B", "A"]),
        cells(&["B"]),
        cells(&["A", "C"]),
        cells(&[]),
        cells(&["D", "C", "B"]),
    ];
    let covering = Some(union_of_cells(&lists));
    assert_eq!(
        summarize_cells(&lists, &covering, true),
        summarize_cells(&lists, &None, true)
    );
    for list in &lists {
        assert_eq!(record_membership(list, &covering), record_membership(list, &None));
    }
}

#[test]
fn counting_from_the_table_matches_the_summary() {
    let lists = vec![
        cells(&["A", "B", "A"]),
        cells(&["Q", "B"]),
        cells(&["A", "C", "Q", "C"]),
        cells(&["D", "C", "B"]),
    ];
    let valid = Some(set_of(&["A", "B", "C", "D"]));
    let tabled: Vec<Vec<HexCell>> =
        lists.iter().map(|list| record_membership(list, &valid)).collect();
    assert_eq!(
        summarize_cells(&tabled, &None, true),
        summarize_cells(&lists, &valid, true)
    );
}

#[test]
fn tally_lists_cells_as_met_with_their_counts() {
    let lists = vec![cells(&["B", "A"]), cells(&["C", "A", "A"]), cells(&["A"])];
    let (seen, tally) = tally_cells(&lists, &None);
    let ids: Vec<&str> = seen.iter().map(|c| c.id.as_str()).collect();
    assert_eq!(ids, vec!["B", "A", "C"]);
    assert_eq!(tally, vec![1, 3, 1]);
    let rows = rank_rows(seen, tally, false);
    assert_eq!(counts(&rows), pairs(&[("A", 3), ("B", 1), ("C", 1)]));
}

#[test]
fn membership_keeps_first_meetings_in_order() {
    let list = vec![
        cell_at("C", 1, 0),
        cell_at("A", 2, 0),
        cell_at("C", 3, 0),
        cell_at("B", 4, 0),
        cell_at("A", 5, 0),
    ];
    assert_eq!(
        record_membership(&list, &None),
        vec![cell_at("C", 1, 0), cell_at("A", 2, 0), cell_at("B", 4, 0)]
    );
    assert_eq!(
        record_membership(&list, &Some(set_of(&["A", "B"]))),
        vec![cell_at("A", 2, 0), cell_at("B", 4, 0)]
    );
}

#[test]
fn find_cell_gives_the_first_place() {
    let list = cells(&["A", "B", "A", "C"]);
    assert_eq!(find_cell(&list, 4, &"A".to_string()), Some(0));
    assert_eq!(find_cell(&list, 4, &"C".to_string()), Some(3));
    assert_eq!(find_cell(&list, 3, &"C".to_string()), None);
    assert_eq!(find_cell(&list, 0, &"A".to_string()), None);
}

#[test]
fn cell_id_set_holds_each_id_once() {
    let mut set = CellIdSet::new();
    assert!(!set.contains(&"A".to_string()));
    set.insert(&"A".to_string());
    set.insert(&"B".to_string());
    set.insert(&"A".to_string());
    set.insert_cells(&cells(&["C", "B", "C"]));
    assert!(set.contains(&"A".to_string()));
    assert!(set.contains(&"C".to_string()));
    assert!(!set.contains(&"D".to_string()));
    assert_eq!(set.to_vec(), vec!["A", "B", "C"]);
    assert!(restriction_allows(&Some(set), &"B".to_string()));
    assert!(restriction_allows(&None, &"anything".to_string()));
    assert!(!restriction_allows(&Some(CellIdSet::new()), &"B".to_string()));
}

#[test]
fn record_row_carries_attributes_and_cells() {
    let rec = record(Some("TEST-001"), &[]);
    let touched = cells(&["B", "A", "B"]);
    let row = record_row(&rec, &touched, &None, true);
    assert_eq!(row.asset_id.as_deref(), Some("TEST-001"));
    assert_eq!(row.pipe_type.as_deref(), Some("MP"));
    assert_eq!(row.material.as_deref(), Some("PE"));
    assert_eq!(row.pressure, None);
    assert_eq!(row.hex_ids, vec!["B", "A"]);
    assert_eq!(row.cells, Some(cells(&["B", "A"])));

    let bare = record_row(&rec, &touched, &Some(set_of(&["A"])), false);
    assert_eq!(bare.hex_ids, vec!["A"]);
    assert_eq!(bare.cells, None);
}

#[test]
fn record_rows_follow_the_records() {
    let records = vec![record(Some("one"), &[]), record(None, &[]), record(Some("three"), &[])];
    let lists = vec![cells(&["A"]), cells(&[]), cells(&["C", "A", "C"])];
    let rows = record_rows(&records, &lists, &None, false);
    assert_eq!(rows.len(), 3);
    assert_eq!(rows[0].asset_id.as_deref(), Some("one"));
    assert_eq!(rows[1].asset_id, None);
    assert!(rows[1].hex_ids.is_empty());
    assert_eq!(rows[2].hex_ids, vec!["C", "A"]);
}

#[test]
fn test_get_hex_cells() {
    let record = record(Some("TEST-001"), &[0.0, 1.0, 2.0, 3.0, 4.0]);
    let cells = get_hex_cells(&record, 12, &letter_grid).unwrap();

    assert!(!cells.is_empty());
    for cell in &cells {
        println!("{}", cell.id);
    }
    let ids: Vec<&str> = cells.iter().map(|c| c.id.as_str()).collect();
    assert_eq!(ids, vec!["A", "B", "C", "D", "E"]);
    assert_eq!(record.asset_id(), Some("TEST-001"));
    assert_eq!(record.pipe_type(), Some("MP"));
    assert_eq!(record.material(), Some("PE"));
    assert_eq!(record.pressure(), None);
    assert!(record.geo_shape().is_some());
}

#[test]
fn record_without_geometry_fails() {
    let mut rec = record(None, &[]);
    rec.geo_shape = None;
    match get_hex_cells(&rec, 12, &letter_grid) {
        Err(InfraHexError::Geometry(message)) => assert_eq!(message, "Feature has no geometry"),
        other => panic!("expected a geometry error, got {:?}", other),
    }
}

#[test]
fn record_with_a_polygon_fails() {
    let mut rec = record(None, &[]);
    rec.geo_shape = Some(GeoJsonValue::Polygon(vec![]));
    match get_hex_cells(&rec, 12, &letter_grid) {
        Err(InfraHexError::Geometry(message)) => {
            assert_eq!(message, "Expected LineString or MultiLineString, got Polygon")
        }
        other => panic!("expected a geometry error, got {:?}", other),
    }
}

#[test]
fn grid_failure_is_handed_on() {
    let rec = record(None, &[0.0]);
    match get_hex_cells(&rec, 99, &letter_grid) {
        Err(InfraHexError::HexGrid(message)) => assert_eq!(message, "Invalid zoom level: 99"),
        other => panic!("expected a grid error, got {:?}", other),
    }
}

#[test]
fn summary_from_records() {
    // Records touching {A, B}, {B} and {A, C}.
    let records = vec![
        record(Some("r1"), &[0.0, 1.0]),
        record(Some("r2"), &[1.0]),
        record(Some("r3"), &[0.0, 2.0]),
    ];
    let rows = to_hex_summary(&records, 10, &letter_grid).unwrap();
    assert_eq!(counts(&rows), pairs(&[("A", 2), ("B", 2), ("C", 1)]));
    assert_eq!(rows[0].cell, Some(HexCell { id: "A".to_string(), zoom_level: 10, row: 0, col: 0 }));
    assert_eq!(rows[2].cell, Some(HexCell { id: "C".to_string(), zoom_level: 10, row: 0, col: 2 }));

    let bare = to_hex_summary_no_geom(&records, 10, &letter_grid).unwrap();
    assert_eq!(counts(&bare), pairs(&[("A", 2), ("B", 2), ("C", 1)]));
    assert!(bare.iter().all(|row| row.cell.is_none()));

    let within =
        to_hex_summary_within(&records, 10, &Some(set_of(&["B", "C"])), false, &letter_grid)
            .unwrap();
    assert_eq!(counts(&within), pairs(&[("B", 2), ("C", 1)]));
}

#[test]
fn table_from_records() {
    let records = vec![
        record(Some("r1"), &[0.0, 1.0, 0.0]),
        record(None, &[]),
        record(Some("r3"), &[2.0, 0.0]),
    ];
    let rows = to_record_batch(&records, 10, &letter_grid).unwrap();
    assert_eq!(rows.len(), 3);
    assert_eq!(rows[0].asset_id.as_deref(), Some("r1"));
    assert_eq!(rows[0].hex_ids, vec!["A", "B"]);
    assert_eq!(rows[0].cells.as_ref().map(|c| c.len()), Some(2));
    assert_eq!(rows[1].asset_id, None);
    assert!(rows[1].hex_ids.is_empty());
    assert_eq!(rows[2].hex_ids, vec!["C", "A"]);

    let bare = to_record_batch_no_geom(&records, 10, &letter_grid).unwrap();
    assert_eq!(bare[0].hex_ids, vec!["A", "B"]);
    assert!(bare.iter().all(|row| row.cells.is_none()));

    let within =
        to_record_batch_within(&records, 10, &Some(set_of(&["A"])), true, &letter_grid).unwrap();
    assert_eq!(within[0].hex_ids, vec!["A"]);
    assert_eq!(within[2].hex_ids, vec!["A"]);
}

#[test]
fn one_bad_geometry_fails_the_whole_aggregation() {
    let mut bad = record(Some("bad"), &[]);
    bad.geo_shape = Some(GeoJsonValue::Point(vec![0.0, 0.0]));
    let records = vec![record(Some("r1"), &[0.0]), bad, record(Some("r3"), &[1.0])];
    assert!(matches!(
        to_hex_summary(&records, 10, &letter_grid),
        Err(InfraHexError::Geometry(_))
    ));
    assert!(matches!(
        to_record_batch_no_geom(&records, 10, &letter_grid),
        Err(InfraHexError::Geometry(_))
    ));
    assert!(matches!(
        extract_cells(&records, 10, &letter_grid),
        Err(InfraHexError::Geometry(_))
    ));
    let good = vec![record(None, &[3.0]), record(None, &[])];
    let lists = extract_cells(&good, 10, &letter_grid).unwrap();
    assert_eq!(lists.len(), 2);
    assert_eq!(lists[0][0].id, "D");
    assert!(lists[1].is_empty());
}

/// Stands in for the grid on boundaries: a boundary is the list of the cells
/// that it meets.
fn named_cells(boundary: &Vec<&str>, zoom: u8) -> Result<Vec<HexCell>, InfraHexError> {
    if boundary.is_empty() {
        return Err(InfraHexError::HexGrid(format!("empty polygon at zoom {}", zoom)));
    }
    Ok(boundary.iter().filter(|id| **id != "-").map(|id| cell(id)).collect())
}

#[test]
fn no_boundary_is_no_restriction() {
    let filter: BoundaryFilter<Vec<&str>> = BoundaryFilter::Unrestricted;
    assert!(filter.valid_cell_ids(10, &named_cells).unwrap().is_none());
}

#[test]
fn polygon_boundary_gives_its_cells() {
    let filter = BoundaryFilter::Polygon(vec!["B", "A", "B"]);
    let valid = filter.valid_cell_ids(10, &named_cells).unwrap().unwrap();
    assert_eq!(valid.to_vec(), vec!["B", "A"]);
}

#[test]
fn polygon_boundary_without_cells_is_the_empty_set() {
    let filter = BoundaryFilter::Polygon(vec!["-"]);
    let valid = filter.valid_cell_ids(10, &named_cells).unwrap();
    assert!(valid.is_some());
    assert!(valid.unwrap().to_vec().is_empty());
}

#[test]
fn multipolygon_boundary_unites_its_members() {
    let filter = BoundaryFilter::MultiPolygon(vec![vec!["A", "B"], vec!["-"], vec!["C", "A"]]);
    let valid = filter.valid_cell_ids(10, &named_cells).unwrap().unwrap();
    assert_eq!(valid.to_vec(), vec!["A", "B", "C"]);

    let lists = vec![cells(&["A", "D"]), cells(&["D"]), cells(&["C", "B", "A"])];
    let rows = summarize_cells(&lists, &Some(valid), false);
    assert_eq!(counts(&rows), pairs(&[("A", 2), ("C", 1), ("B", 1)]));
}

#[test]
fn boundary_failure_is_handed_on() {
    let filter = BoundaryFilter::MultiPolygon(vec![vec!["A"], vec![]]);
    assert!(matches!(
        filter.valid_cell_ids(7, &named_cells),
        Err(InfraHexError::HexGrid(_))
    ));
    let single = BoundaryFilter::Polygon(Vec::<&str>::new());
    assert!(matches!(
        single.valid_cell_ids(7, &named_cells),
        Err(InfraHexError::HexGrid(_))
    ));
    assert!(resolve_each(&vec![vec!["A"], vec!["B", "C"]], 7, &named_cells).is_ok());
}

#[test]
fn gathered_cells_keep_their_order() {
    let gathered =
        collect_cells(vec![Ok(cells(&["A"])), Ok(cells(&[])), Ok(cells(&["B", "C"]))]).unwrap();
    assert_eq!(gathered, vec![cells(&["A"]), cells(&[]), cells(&["B", "C"])]);
    assert!(collect_cells(vec![]).unwrap().is_empty());
}

#[test]
fn gathering_fails_with_the_first_failure() {
    let outcome = collect_cells(vec![
        Ok(cells(&["A"])),
        Err(InfraHexError::Geometry("first".to_string())),
        Ok(cells(&["B"])),
        Err(InfraHexError::HexGrid("second".to_string())),
    ]);
    match outcome {
        Err(InfraHexError::Geometry(message)) => assert_eq!(message, "first"),
        other => panic!("expected the first failure, got {:?}", other),
    }
}

#[test]
fn aggregation_within_a_boundary() {
    let records = vec![
        record(Some("r1"), &[0.0, 1.0]),
        record(Some("r2"), &[1.0]),
        record(Some("r3"), &[0.0, 2.0]),
    ];
    let boundary = BoundaryFilter::MultiPolygon(vec![vec!["C"], vec!["B"]]);
    let rows =
        to_hex_summary_for(&records, 10, &boundary, false, &letter_grid, &named_cells).unwrap();
    assert_eq!(counts(&rows), pairs(&[("B", 2), ("C", 1)]));

    let table =
        to_record_batch_for(&records, 10, &boundary, false, &letter_grid, &named_cells).unwrap();
    assert_eq!(table[0].hex_ids, vec!["B"]);
    assert_eq!(table[1].hex_ids, vec!["B"]);
    assert_eq!(table[2].hex_ids, vec!["C"]);

    let open: BoundaryFilter<Vec<&str>> = BoundaryFilter::Unrestricted;
    let all = to_hex_summary_for(&records, 10, &open, false, &letter_grid, &named_cells).unwrap();
    assert_eq!(counts(&all), pairs(&[("A", 2), ("B", 2), ("C", 1)]));

    let broken = BoundaryFilter::Polygon(Vec::<&str>::new());
    assert!(matches!(
        to_hex_summary_for(&records, 10, &broken, false, &letter_grid, &named_cells),
        Err(InfraHexError::HexGrid(_))
    ));
    assert!(matches!(
        to_record_batch_for(&records, 10, &broken, true, &letter_grid, &named_cells),
        Err(InfraHexError::HexGrid(_))
    ));
}

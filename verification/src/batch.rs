use vstd::prelude::*;
use vstd::utf8::encode_utf8;
use std::sync::Arc;
use arrow_array::builder::{ListBuilder, StringBuilder};
use arrow_array::{Array, RecordBatch, StringArray, UInt32Array};
use arrow_schema::{ArrowError, DataType, Field, FieldRef, Schema};
use crate::error::InfraHexError;
use crate::summary::SummaryRow;
use crate::table::RecordRow;

verus! {

/// A table of Arrow: columns of one length under a schema. The library
/// builds it column by column and hands it out whole.
#[verifier::external_body]
pub struct TableBatch {
    pub batch: RecordBatch,
}

/// The error of Arrow.
#[verifier::external_type_specification]
#[verifier::external_body]
pub struct ExArrowError(ArrowError);

/// The number of rows of a table.
pub uninterp spec fn batch_rows(batch: TableBatch) -> nat;

/// The names of the columns of a table, in their order.
pub uninterp spec fn batch_headers(batch: TableBatch) -> Seq<Seq<char>>;

/// The values of a column of texts; a null is `None`.
pub uninterp spec fn batch_texts(batch: TableBatch, column: int) -> Seq<Option<Seq<char>>>;

/// The values of a column of unsigned 32-bit numbers.
pub uninterp spec fn batch_counts(batch: TableBatch, column: int) -> Seq<u32>;

/// The values of a column of lists of texts.
pub uninterp spec fn batch_lists(batch: TableBatch, column: int) -> Seq<Seq<Seq<char>>>;

/// The largest offset that a column of texts or of lists can hold.
pub open spec fn max_offset() -> nat {
    0x7fff_ffff
}

/// The texts of a column of optional strings.
pub open spec fn column_texts(values: Seq<Option<String>>) -> Seq<Option<Seq<char>>> {
    values.map_values(
        |value: Option<String>|
            match value {
                Some(text) => Some(text@),
                None => None,
            },
    )
}

/// Whether a column of optional strings holds no null.
pub open spec fn without_nulls(values: Seq<Option<String>>) -> bool {
    forall|i: int| 0 <= i < values.len() ==> (#[trigger] values[i]) is Some
}

/// The texts of a column of lists of strings.
pub open spec fn column_lists(values: Seq<Vec<String>>) -> Seq<Seq<Seq<char>>> {
    values.map_values(|list: Vec<String>| list@.map_values(|text: String| text@))
}

/// The number of bytes that the texts of a column take in UTF-8.
pub open spec fn text_bytes(texts: Seq<Option<Seq<char>>>) -> nat
    decreases texts.len(),
{
    if texts.len() == 0 {
        0
    } else {
        text_bytes(texts.drop_last()) + match texts.last() {
            Some(text) => encode_utf8(text).len(),
            None => 0,
        }
    }
}

/// The number of texts in the lists of a column.
pub open spec fn list_items(lists: Seq<Seq<Seq<char>>>) -> nat
    decreases lists.len(),
{
    if lists.len() == 0 {
        0
    } else {
        list_items(lists.drop_last()) + lists.last().len()
    }
}

/// The number of bytes that the texts in the lists of a column take in UTF-8.
pub open spec fn list_bytes(lists: Seq<Seq<Seq<char>>>) -> nat
    decreases lists.len(),
{
    if lists.len() == 0 {
        0
    } else {
        list_bytes(lists.drop_last()) + text_bytes(
            lists.last().map_values(|text: Seq<char>| Some(text)),
        )
    }
}

/// Whether `joined` holds the columns of `left` followed by those of `right`.
pub open spec fn joins(left: TableBatch, right: TableBatch, joined: TableBatch) -> bool {
    let width = batch_headers(left).len() as int;
    &&& batch_rows(joined) == batch_rows(left)
    &&& batch_headers(joined) == batch_headers(left) + batch_headers(right)
    &&& forall|column: int|
        #![trigger batch_texts(joined, column)]
        #![trigger batch_counts(joined, column)]
        #![trigger batch_lists(joined, column)]
        0 <= column < width ==> {
            &&& batch_texts(joined, column) == batch_texts(left, column)
            &&& batch_counts(joined, column) == batch_counts(left, column)
            &&& batch_lists(joined, column) == batch_lists(left, column)
        }
    &&& forall|column: int|
        #![trigger batch_texts(joined, column)]
        #![trigger batch_counts(joined, column)]
        #![trigger batch_lists(joined, column)]
        width <= column < batch_headers(joined).len() ==> {
            &&& batch_texts(joined, column) == batch_texts(right, column - width)
            &&& batch_counts(joined, column) == batch_counts(right, column - width)
            &&& batch_lists(joined, column) == batch_lists(right, column - width)
        }
}

/// `RecordBatch::try_new` on one column of texts, a `StringArray` collected
/// from `values`. It fails only where the column is not nullable and holds a
/// null. Collecting the column panics where its texts take more bytes than an
/// offset can count.
#[verifier::external_body]
fn text_batch(header: &str, nullable: bool, values: &Vec<Option<String>>) -> (outcome: Result<TableBatch, ArrowError>)
    requires
        text_bytes(column_texts(values@)) <= max_offset(),
    ensures
        outcome is Ok <==> nullable || without_nulls(values@),
        outcome is Ok ==> batch_rows(outcome->Ok_0) == values@.len(),
        outcome is Ok ==> batch_headers(outcome->Ok_0) == seq![header@],
        outcome is Ok ==> batch_texts(outcome->Ok_0, 0) == column_texts(values@),
{
    let column: StringArray = values.iter().map(|value| value.as_deref()).collect();
    let schema = Schema::new(vec![Field::new(header, DataType::Utf8, nullable)]);
    RecordBatch::try_new(Arc::new(schema), vec![Arc::new(column)]).map(|batch| TableBatch { batch })
}

/// `RecordBatch::try_new` on one column of numbers without nulls, a
/// `UInt32Array` collected from `values`. The column meets its schema, so the
/// call succeeds.
#[verifier::external_body]
fn count_batch(header: &str, values: &Vec<u32>) -> (outcome: Result<TableBatch, ArrowError>)
    ensures
        outcome is Ok,
        outcome is Ok ==> batch_rows(outcome->Ok_0) == values@.len(),
        outcome is Ok ==> batch_headers(outcome->Ok_0) == seq![header@],
        outcome is Ok ==> batch_counts(outcome->Ok_0, 0) == values@,
{
    let column: UInt32Array = values.iter().map(|value| Some(*value)).collect();
    let schema = Schema::new(vec![Field::new(header, DataType::UInt32, false)]);
    RecordBatch::try_new(Arc::new(schema), vec![Arc::new(column)]).map(|batch| TableBatch { batch })
}

/// `RecordBatch::try_new` on one column of lists of texts without nulls,
/// built with a `ListBuilder` over a `StringBuilder`; the field has the type
/// of the column, so the call succeeds. Building the column panics where the
/// lists hold more texts, or their texts take more bytes, than an offset can
/// count.
#[verifier::external_body]
fn list_batch(header: &str, values: &Vec<Vec<String>>) -> (outcome: Result<TableBatch, ArrowError>)
    requires
        list_items(column_lists(values@)) <= max_offset(),
        list_bytes(column_lists(values@)) <= max_offset(),
    ensures
        outcome is Ok,
        outcome is Ok ==> batch_rows(outcome->Ok_0) == values@.len(),
        outcome is Ok ==> batch_headers(outcome->Ok_0) == seq![header@],
        outcome is Ok ==> batch_lists(outcome->Ok_0, 0) == column_lists(values@),
{
    let mut builder = ListBuilder::new(StringBuilder::new());
    for list in values {
        for text in list {
            builder.values().append_value(text);
        }
        builder.append(true);
    }
    let column = builder.finish();
    let schema = Schema::new(vec![Field::new(header, column.data_type().clone(), false)]);
    RecordBatch::try_new(Arc::new(schema), vec![Arc::new(column)]).map(|batch| TableBatch { batch })
}

/// `RecordBatch::try_new` on the fields and the columns of two tables, those
/// of `left` first. It succeeds where the two tables have the same number of
/// rows.
#[verifier::external_body]
fn join_batches(left: TableBatch, right: TableBatch) -> (outcome: Result<TableBatch, ArrowError>)
    requires
        batch_headers(left).len() > 0,
        batch_headers(right).len() > 0,
    ensures
        outcome is Ok <==> batch_rows(left) == batch_rows(right),
        outcome is Ok ==> joins(left, right, outcome->Ok_0),
{
    let mut fields: Vec<FieldRef> = left.batch.schema().fields().iter().cloned().collect();
    fields.extend(right.batch.schema().fields().iter().cloned());
    let mut columns = left.batch.columns().to_vec();
    columns.extend_from_slice(right.batch.columns());
    RecordBatch::try_new(Arc::new(Schema::new(fields)), columns).map(|batch| TableBatch { batch })
}

/// The text that `Display` gives an error of Arrow. It depends on the error
/// alone.
pub uninterp spec fn arrow_error_message(error: ArrowError) -> Seq<char>;

/// A fault of the schema of a table as an error of this library: a geometry
/// error that carries the text of the fault, which is how every fault of
/// building a table is reported.
fn schema_fault(error: ArrowError) -> (fault: InfraHexError)
    ensures
        fault matches InfraHexError::Geometry(message) && message@ == arrow_error_message(error),
{
    InfraHexError::Geometry(arrow_error_text(&error))
}

/// `ToString::to_string` on an error of Arrow: the text that its `Display`
/// gives.
#[verifier::external_body]
fn arrow_error_text(error: &ArrowError) -> (text: String)
    ensures
        text@ == arrow_error_message(*error),
{
    error.to_string()
}

/// The column of cell identifiers of a summary.
pub open spec fn summary_ids(rows: Seq<SummaryRow>) -> Seq<Option<Seq<char>>> {
    rows.map_values(|row: SummaryRow| Some(row.hex_id@))
}

/// The column of counts of a summary. A count is cut to 32 bits.
pub open spec fn summary_counts(rows: Seq<SummaryRow>) -> Seq<u32> {
    rows.map_values(|row: SummaryRow| row.pipe_count as u32)
}

/// Whether `batch` is the table of a summary: a column `hex_id` of the cell
/// identifiers and a column `pipe_count` of the counts, neither with nulls.
pub open spec fn is_summary_batch(batch: TableBatch, rows: Seq<SummaryRow>) -> bool {
    &&& batch_rows(batch) == rows.len()
    &&& batch_headers(batch) == seq!["hex_id"@, "pipe_count"@]
    &&& batch_texts(batch, 0) == summary_ids(rows)
    &&& batch_counts(batch, 1) == summary_counts(rows)
}

/// Builds the table of a summary. Its columns are of one length by
/// construction, so the schema of the table cannot be violated.
pub fn summary_batch(rows: &Vec<SummaryRow>) -> (outcome: Result<TableBatch, InfraHexError>)
    requires
        text_bytes(summary_ids(rows@)) <= max_offset(),
    ensures
        outcome matches Ok(batch) && is_summary_batch(batch, rows@),
{
    let mut ids: Vec<Option<String>> = Vec::new();
    let mut counts: Vec<u32> = Vec::new();
    let mut i: usize = 0;
    while i < rows.len()
        invariant
            i <= rows@.len(),
            ids@.len() == i,
            counts@.len() == i,
            forall|k: int| 0 <= k < i ==> #[trigger] ids@[k] == Some(rows@[k].hex_id),
            forall|k: int| 0 <= k < i ==> #[trigger] counts@[k] == rows@[k].pipe_count as u32,
        decreases rows@.len() - i,
    {
        ids.push(Some(rows[i].hex_id.clone()));
        counts.push(#[verifier::truncate] (rows[i].pipe_count as u32));
        i = i + 1;
    }
    assert(column_texts(ids@) =~= summary_ids(rows@));
    assert(counts@ =~= summary_counts(rows@));
    let named = match text_batch("hex_id", false, &ids) {
        Ok(batch) => batch,
        Err(error) => {
            return Err(schema_fault(error));
        },
    };
    let counted = match count_batch("pipe_count", &counts) {
        Ok(batch) => batch,
        Err(error) => {
            return Err(schema_fault(error));
        },
    };
    match join_batches(named, counted) {
        Ok(batch) => {
            assert(batch_headers(batch) =~= seq!["hex_id"@, "pipe_count"@]);
            assert(batch_texts(batch, 0) == batch_texts(named, 0));
            assert(batch_counts(batch, 1) == batch_counts(counted, 0));
            Ok(batch)
        },
        Err(error) => Err(schema_fault(error)),
    }
}

/// The attributes of a record that the per-record table carries through.
#[derive(Debug, Clone, Copy, PartialEq, Eq, Structural)]
pub enum Attribute {
    AssetId,
    PipeType,
    Material,
    Pressure,
}

/// The value of an attribute in a row.
pub open spec fn attribute_of(row: RecordRow, attribute: Attribute) -> Option<String> {
    match attribute {
        Attribute::AssetId => row.asset_id,
        Attribute::PipeType => row.pipe_type,
        Attribute::Material => row.material,
        Attribute::Pressure => row.pressure,
    }
}

/// The column of an attribute of a per-record table.
pub open spec fn attribute_texts(rows: Seq<RecordRow>, attribute: Attribute) -> Seq<
    Option<Seq<char>>,
> {
    column_texts(rows.map_values(|row: RecordRow| attribute_of(row, attribute)))
}

/// The column of the cell identifiers of a per-record table.
pub open spec fn hex_id_lists(rows: Seq<RecordRow>) -> Seq<Seq<Seq<char>>> {
    column_lists(rows.map_values(|row: RecordRow| row.hex_ids))
}

/// Whether `batch` is the per-record table of `rows`: the columns
/// `asset_id`, `pipe_type`, `material` and `pressure`, which may hold nulls,
/// and the column `hex_ids` of the lists of cell identifiers.
pub open spec fn is_record_batch(batch: TableBatch, rows: Seq<RecordRow>) -> bool {
    &&& batch_rows(batch) == rows.len()
    &&& batch_headers(batch) == seq![
        "asset_id"@,
        "pipe_type"@,
        "material"@,
        "pressure"@,
        "hex_ids"@,
    ]
    &&& batch_texts(batch, 0) == attribute_texts(rows, Attribute::AssetId)
    &&& batch_texts(batch, 1) == attribute_texts(rows, Attribute::PipeType)
    &&& batch_texts(batch, 2) == attribute_texts(rows, Attribute::Material)
    &&& batch_texts(batch, 3) == attribute_texts(rows, Attribute::Pressure)
    &&& batch_lists(batch, 4) == hex_id_lists(rows)
}

/// Whether the columns of a per-record table fit into a table of Arrow: the
/// texts of no column take more bytes, and the lists hold no more texts, than
/// an offset can count.
pub open spec fn record_batch_fits(rows: Seq<RecordRow>) -> bool {
    &&& text_bytes(attribute_texts(rows, Attribute::AssetId)) <= max_offset()
    &&& text_bytes(attribute_texts(rows, Attribute::PipeType)) <= max_offset()
    &&& text_bytes(attribute_texts(rows, Attribute::Material)) <= max_offset()
    &&& text_bytes(attribute_texts(rows, Attribute::Pressure)) <= max_offset()
    &&& list_items(hex_id_lists(rows)) <= max_offset()
    &&& list_bytes(hex_id_lists(rows)) <= max_offset()
}

fn attribute_column(rows: &Vec<RecordRow>, attribute: Attribute) -> (column: Vec<Option<String>>)
    ensures
        column@ == rows@.map_values(|row: RecordRow| attribute_of(row, attribute)),
{
    let mut column: Vec<Option<String>> = Vec::new();
    let mut i: usize = 0;
    while i < rows.len()
        invariant
            i <= rows@.len(),
            column@.len() == i,
            forall|k: int| 0 <= k < i ==> #[trigger] column@[k] == attribute_of(rows@[k], attribute),
        decreases rows@.len() - i,
    {
        let row = &rows[i];
        let value = match attribute {
            Attribute::AssetId => &row.asset_id,
            Attribute::PipeType => &row.pipe_type,
            Attribute::Material => &row.material,
            Attribute::Pressure => &row.pressure,
        };
        let copy = match value {
            Some(text) => Some(text.clone()),
            None => None,
        };
        column.push(copy);
        i = i + 1;
    }
    assert(column@ =~= rows@.map_values(|row: RecordRow| attribute_of(row, attribute)));
    column
}

fn clone_texts(texts: &Vec<String>) -> (copy: Vec<String>)
    ensures
        copy@.map_values(|text: String| text@) == texts@.map_values(|text: String| text@),
{
    let mut copy: Vec<String> = Vec::new();
    let mut i: usize = 0;
    while i < texts.len()
        invariant
            i <= texts@.len(),
            copy@.len() == i,
            forall|k: int| 0 <= k < i ==> (#[trigger] copy@[k])@ == texts@[k]@,
        decreases texts@.len() - i,
    {
        copy.push(texts[i].clone());
        i = i + 1;
    }
    assert(copy@.map_values(|text: String| text@) =~= texts@.map_values(|text: String| text@));
    copy
}

fn hex_id_column(rows: &Vec<RecordRow>) -> (column: Vec<Vec<String>>)
    ensures
        column_lists(column@) == hex_id_lists(rows@),
{
    let mut column: Vec<Vec<String>> = Vec::new();
    let mut i: usize = 0;
    while i < rows.len()
        invariant
            i <= rows@.len(),
            column@.len() == i,
            forall|k: int|
                0 <= k < i ==> (#[trigger] column@[k])@.map_values(|text: String| text@)
                    == rows@[k].hex_ids@.map_values(|text: String| text@),
        decreases rows@.len() - i,
    {
        column.push(clone_texts(&rows[i].hex_ids));
        i = i + 1;
    }
    assert(column_lists(column@) =~= hex_id_lists(rows@));
    column
}

/// Builds the per-record table. Its columns are of one length by
/// construction, so the schema of the table cannot be violated.
pub fn record_batch(rows: &Vec<RecordRow>) -> (outcome: Result<TableBatch, InfraHexError>)
    requires
        record_batch_fits(rows@),
    ensures
        outcome matches Ok(batch) && is_record_batch(batch, rows@),
{
    let asset_ids = attribute_column(rows, Attribute::AssetId);
    let pipe_types = attribute_column(rows, Attribute::PipeType);
    let materials = attribute_column(rows, Attribute::Material);
    let pressures = attribute_column(rows, Attribute::Pressure);
    let hex_ids = hex_id_column(rows);
    let first = match text_batch("asset_id", true, &asset_ids) {
        Ok(batch) => batch,
        Err(error) => {
            return Err(schema_fault(error));
        },
    };
    let second = match text_batch("pipe_type", true, &pipe_types) {
        Ok(batch) => batch,
        Err(error) => {
            return Err(schema_fault(error));
        },
    };
    let third = match text_batch("material", true, &materials) {
        Ok(batch) => batch,
        Err(error) => {
            return Err(schema_fault(error));
        },
    };
    let fourth = match text_batch("pressure", true, &pressures) {
        Ok(batch) => batch,
        Err(error) => {
            return Err(schema_fault(error));
        },
    };
    let fifth = match list_batch("hex_ids", &hex_ids) {
        Ok(batch) => batch,
        Err(error) => {
            return Err(schema_fault(error));
        },
    };
    let two = match join_batches(first, second) {
        Ok(batch) => batch,
        Err(error) => {
            return Err(schema_fault(error));
        },
    };
    assert(batch_headers(two) =~= seq!["asset_id"@, "pipe_type"@]);
    assert(batch_texts(two, 0) == batch_texts(first, 0));
    assert(batch_texts(two, 1) == batch_texts(second, 0));
    let three = match join_batches(two, third) {
        Ok(batch) => batch,
        Err(error) => {
            return Err(schema_fault(error));
        },
    };
    assert(batch_headers(three) =~= seq!["asset_id"@, "pipe_type"@, "material"@]);
    assert(batch_texts(three, 0) == batch_texts(two, 0));
    assert(batch_texts(three, 1) == batch_texts(two, 1));
    assert(batch_texts(three, 2) == batch_texts(third, 0));
    let four = match join_batches(three, fourth) {
        Ok(batch) => batch,
        Err(error) => {
            return Err(schema_fault(error));
        },
    };
    assert(batch_headers(four) =~= seq!["asset_id"@, "pipe_type"@, "material"@, "pressure"@]);
    assert(batch_texts(four, 0) == batch_texts(three, 0));
    assert(batch_texts(four, 1) == batch_texts(three, 1));
    assert(batch_texts(four, 2) == batch_texts(three, 2));
    assert(batch_texts(four, 3) == batch_texts(fourth, 0));
    match join_batches(four, fifth) {
        Ok(batch) => {
            assert(batch_headers(batch) =~= seq![
                "asset_id"@,
                "pipe_type"@,
                "material"@,
                "pressure"@,
                "hex_ids"@,
            ]);
            assert(batch_texts(batch, 0) == batch_texts(four, 0));
            assert(batch_texts(batch, 1) == batch_texts(four, 1));
            assert(batch_texts(batch, 2) == batch_texts(four, 2));
            assert(batch_texts(batch, 3) == batch_texts(four, 3));
            assert(batch_lists(batch, 4) == batch_lists(fifth, 0));
            Ok(batch)
        },
        Err(error) => Err(schema_fault(error)),
    }
}

} // verus!

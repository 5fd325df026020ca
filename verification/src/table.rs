use vstd::prelude::*;
use crate::geometry::GeoJsonValue;
use crate::cells::{
    cell_ids, distinct_cells, find_cell, has_id, lemma_one_more_cell, lemma_surviving, membership,
    restriction_allows, restriction_view, surviving, CellIdSet, HexCell,
};

verus! {

/// The text of an optional string.
pub open spec fn text_of(value: Option<&str>) -> Option<Seq<char>> {
    match value {
        Some(text) => Some(text@),
        None => None,
    }
}

/// The text of an optional owned string.
pub open spec fn owned_text_of(value: Option<String>) -> Option<Seq<char>> {
    match value {
        Some(text) => Some(text@),
        None => None,
    }
}

/// The texts of some strings.
pub open spec fn texts_of(values: Seq<String>) -> Seq<Seq<char>> {
    values.map_values(|text: String| text@)
}

/// What the aggregation reads of a record: its geometry, an identifier, and
/// the attributes that the per-record table carries through. None of the
/// attributes is interpreted.
pub trait PipelineData<T> {
    spec fn shape(&self) -> Option<GeoJsonValue<T>>;

    spec fn asset_id_text(&self) -> Option<Seq<char>>;

    spec fn pipe_type_text(&self) -> Option<Seq<char>>;

    spec fn material_text(&self) -> Option<Seq<char>>;

    spec fn pressure_text(&self) -> Option<Seq<char>>;

    /// The geometry of the record, where it has one.
    fn geo_shape(&self) -> (shape: Option<&GeoJsonValue<T>>)
        ensures
            match shape {
                Some(value) => self.shape() == Some(*value),
                None => self.shape() is None,
            },
    ;

    fn asset_id(&self) -> (value: Option<&str>)
        ensures
            text_of(value) == self.asset_id_text(),
    ;

    fn pipe_type(&self) -> (value: Option<&str>)
        ensures
            text_of(value) == self.pipe_type_text(),
    ;

    fn material(&self) -> (value: Option<&str>)
        ensures
            text_of(value) == self.material_text(),
    ;

    fn pressure(&self) -> (value: Option<&str>)
        ensures
            text_of(value) == self.pressure_text(),
    ;
}

/// An optional string as an optional `&str`.
pub fn as_text(value: &Option<String>) -> (text: Option<&str>)
    ensures
        text_of(text) == owned_text_of(*value),
{
    match value {
        Some(owned) => Some(owned.as_str()),
        None => None,
    }
}

/// An optional `&str` as an optional string of its own.
pub fn to_owned_text(value: Option<&str>) -> (owned: Option<String>)
    ensures
        owned_text_of(owned) == text_of(value),
{
    match value {
        Some(text) => Some(text.to_owned()),
        None => None,
    }
}

/// One row of the per-record table: the attributes of the record, the cells
/// that it counts for, and, where the geometry is asked for, those cells
/// themselves, from which the combined geometry of the record is drawn.
#[derive(Debug, PartialEq, Eq)]
pub struct RecordRow {
    pub asset_id: Option<String>,
    pub pipe_type: Option<String>,
    pub material: Option<String>,
    pub pressure: Option<String>,
    pub hex_ids: Vec<String>,
    pub cells: Option<Vec<HexCell>>,
}

/// Whether `row` is the row of `record`, whose geometry touches `cells`.
pub open spec fn is_record_row<T, R: PipelineData<T>>(
    row: RecordRow,
    record: R,
    cells: Seq<HexCell>,
    restriction: Option<Set<Seq<char>>>,
    with_geometry: bool,
) -> bool {
    &&& owned_text_of(row.asset_id) == record.asset_id_text()
    &&& owned_text_of(row.pipe_type) == record.pipe_type_text()
    &&& owned_text_of(row.material) == record.material_text()
    &&& owned_text_of(row.pressure) == record.pressure_text()
    &&& texts_of(row.hex_ids@) == cell_ids(membership(cells, restriction))
    &&& match row.cells {
        Some(list) => with_geometry && list@ == membership(cells, restriction),
        None => !with_geometry,
    }
}

/// The cells that one record counts for: its cells that the restriction lets
/// through, each once, in the order in which they were first met.
pub fn record_membership(cells: &Vec<HexCell>, restriction: &Option<CellIdSet>) -> (members: Vec<
    HexCell,
>)
    ensures
        members@ == membership(cells@, restriction_view(*restriction)),
{
    let ghost limit = restriction_view(*restriction);
    let mut members: Vec<HexCell> = Vec::new();
    let mut p: usize = 0;
    proof {
        lemma_surviving(Seq::<HexCell>::empty(), limit);
        assert(cells@.take(0) =~= Seq::<HexCell>::empty());
        assert(surviving(Seq::<HexCell>::empty(), limit) =~= Seq::<HexCell>::empty());
    }
    while p < cells.len()
        invariant
            p <= cells@.len(),
            limit == restriction_view(*restriction),
            members@ == distinct_cells(surviving(cells@.take(p as int), limit)),
        decreases cells@.len() - p,
    {
        let cell = &cells[p];
        proof {
            let met = cells@.take(p as int);
            assert(cells@.take(p + 1) =~= met.push(*cell));
            lemma_one_more_cell(met, *cell, limit);
            lemma_one_more_cell(surviving(met, limit), *cell, limit);
        }
        if restriction_allows(restriction, &cell.id) {
            let known = find_cell(&members, members.len(), &cell.id);
            assert(members@.take(members@.len() as int) =~= members@);
            if known.is_none() {
                members.push(cell.clone());
            } else {
                assert(has_id(members@, cell.id@)) by {
                    assert(members@[known.unwrap() as int].id@ == cell.id@);
                }
            }
        }
        p = p + 1;
    }
    assert(cells@.take(cells@.len() as int) =~= cells@);
    members
}

/// The identifiers of some cells, as strings of their own.
pub fn ids_of(cells: &Vec<HexCell>) -> (ids: Vec<String>)
    ensures
        texts_of(ids@) == cell_ids(cells@),
{
    let mut ids: Vec<String> = Vec::new();
    let mut i: usize = 0;
    while i < cells.len()
        invariant
            i <= cells@.len(),
            ids@.len() == i,
            forall|k: int| 0 <= k < i ==> (#[trigger] ids@[k])@ == cells@[k].id@,
        decreases cells@.len() - i,
    {
        ids.push(cells[i].id.clone());
        i = i + 1;
    }
    assert(texts_of(ids@) =~= cell_ids(cells@));
    ids
}

/// The row of one record.
pub fn record_row<T, R: PipelineData<T>>(
    record: &R,
    cells: &Vec<HexCell>,
    restriction: &Option<CellIdSet>,
    with_geometry: bool,
) -> (row: RecordRow)
    ensures
        is_record_row(row, *record, cells@, restriction_view(*restriction), with_geometry),
{
    let members = record_membership(cells, restriction);
    let hex_ids = ids_of(&members);
    RecordRow {
        asset_id: to_owned_text(record.asset_id()),
        pipe_type: to_owned_text(record.pipe_type()),
        material: to_owned_text(record.material()),
        pressure: to_owned_text(record.pressure()),
        hex_ids,
        cells: if with_geometry {
            Some(members)
        } else {
            None
        },
    }
}

/// The per-record table: one row for each record, in the order of the
/// records.
pub fn record_rows<T, R: PipelineData<T>>(
    records: &Vec<R>,
    cells: &Vec<Vec<HexCell>>,
    restriction: &Option<CellIdSet>,
    with_geometry: bool,
) -> (rows: Vec<RecordRow>)
    requires
        cells@.len() == records@.len(),
    ensures
        rows@.len() == records@.len(),
        forall|i: int|
            0 <= i < rows@.len() ==> is_record_row(
                #[trigger] rows@[i],
                records@[i],
                cells@[i]@,
                restriction_view(*restriction),
                with_geometry,
            ),
{
    let mut rows: Vec<RecordRow> = Vec::new();
    let mut i: usize = 0;
    while i < records.len()
        invariant
            i <= records@.len(),
            cells@.len() == records@.len(),
            rows@.len() == i,
            forall|k: int|
                0 <= k < i ==> is_record_row(
                    #[trigger] rows@[k],
                    records@[k],
                    cells@[k]@,
                    restriction_view(*restriction),
                    with_geometry,
                ),
        decreases records@.len() - i,
    {
        rows.push(record_row(&records[i], &cells[i], restriction, with_geometry));
        i = i + 1;
    }
    rows
}

} // verus!

use vstd::prelude::*;
use crate::aggregate::{
    all_extractable, extraction_fails, extracts, fails_on, is_record_table, resolvable,
    resolve_each, resolves_to, to_hex_summary_within, to_record_batch_within,
};
use crate::cells::{
    all_cells, cell_lists, has_id, lemma_has_id_concat, restriction_view, CellIdSet, HexCell,
};
use crate::error::InfraHexError;
use crate::geometry::LineString;
use crate::summary::{is_summary, SummaryRow};
use crate::table::{PipelineData, RecordRow};

verus! {

/// A boundary that narrows the cells that count, beside the bounding box that
/// the records were fetched with.
#[derive(Debug)]
pub enum BoundaryFilter<P> {
    /// No boundary: every cell counts.
    Unrestricted,
    /// The cells that one polygon meets count.
    Polygon(P),
    /// The cells that one of several polygons meets count.
    MultiPolygon(Vec<P>),
}

impl<P> BoundaryFilter<P> {
    /// The polygons of the boundary, where there is a boundary.
    pub open spec fn members(self) -> Option<Seq<P>> {
        match self {
            BoundaryFilter::Unrestricted => None,
            BoundaryFilter::Polygon(polygon) => Some(seq![polygon]),
            BoundaryFilter::MultiPolygon(polygons) => Some(polygons@),
        }
    }

    /// The valid cells of the boundary at a zoom level: no restriction where
    /// there is no boundary, else the cells that the grid resolver finds for
    /// its polygons, taken together. A boundary whose polygons meet no cell
    /// gives the empty set, which is a restriction and lets nothing through.
    pub fn valid_cell_ids<F>(&self, zoom: u8, resolve: &F) -> (outcome: Result<
        Option<CellIdSet>,
        InfraHexError,
    >) where F: Fn(&P, u8) -> Result<Vec<HexCell>, InfraHexError>
        requires
            self.members() matches Some(polygons) ==> resolvable(*resolve, polygons, zoom),
        ensures
            match self.members() {
                None => outcome matches Ok(None),
                Some(polygons) => match outcome {
                    Ok(Some(valid)) => exists|cells: Seq<Vec<HexCell>>|
                        {
                            &&& #[trigger] resolves_to(*resolve, polygons, zoom, cells)
                            &&& forall|id: Seq<char>|
                                valid@.contains(id) <==> has_id(all_cells(cell_lists(cells)), id)
                        },
                    Ok(None) => false,
                    Err(error) => fails_on(*resolve, polygons, zoom, error),
                },
            },
    {
        match self {
            BoundaryFilter::Unrestricted => Ok(None),
            BoundaryFilter::Polygon(polygon) => {
                assert(resolve.requires((&seq![*polygon][0], zoom)));
                match resolve(polygon, zoom) {
                    Ok(list) => {
                        let mut cells: Vec<Vec<HexCell>> = Vec::new();
                        cells.push(list);
                        let valid = union_of_cells(&cells);
                        assert(resolves_to(*resolve, seq![*polygon], zoom, cells@));
                        Ok(Some(valid))
                    },
                    Err(error) => {
                        assert(resolve.ensures(
                            (&seq![*polygon][0], zoom),
                            Err::<Vec<HexCell>, InfraHexError>(error),
                        ));
                        Err(error)
                    },
                }
            },
            BoundaryFilter::MultiPolygon(polygons) => {
                match resolve_each(polygons, zoom, resolve) {
                    Ok(cells) => {
                        let valid = union_of_cells(&cells);
                        assert(resolves_to(*resolve, polygons@, zoom, cells@));
                        Ok(Some(valid))
                    },
                    Err(error) => Err(error),
                }
            },
        }
    }
}

/// The identifiers of the cells of several lists, taken together.
pub fn union_of_cells(cells: &Vec<Vec<HexCell>>) -> (valid: CellIdSet)
    ensures
        forall|id: Seq<char>| valid@.contains(id) <==> has_id(all_cells(cell_lists(cells@)), id),
{
    let ghost lists = cell_lists(cells@);
    let mut valid = CellIdSet::new();
    let mut i: usize = 0;
    assert(lists.take(0) =~= Seq::<Seq<HexCell>>::empty());
    while i < cells.len()
        invariant
            i <= cells@.len(),
            lists == cell_lists(cells@),
            forall|id: Seq<char>|
                valid@.contains(id) <==> has_id(all_cells(lists.take(i as int)), id),
        decreases cells@.len() - i,
    {
        let ghost before = valid@;
        valid.insert_cells(&cells[i]);
        proof {
            let grown = lists.take(i + 1);
            assert(grown.drop_last() =~= lists.take(i as int));
            assert(grown.last() == cells@[i as int]@);
            assert forall|id: Seq<char>| valid@.contains(id) <==> has_id(
                all_cells(grown),
                id,
            ) by {
                lemma_has_id_concat(all_cells(lists.take(i as int)), cells@[i as int]@, id);
                assert(valid@.contains(id) <==> before.contains(id) || has_id(
                    cells@[i as int]@,
                    id,
                ));
                assert(before.contains(id) <==> has_id(all_cells(lists.take(i as int)), id));
                assert(all_cells(grown) == all_cells(lists.take(i as int)) + cells@[i as int]@);
            }
        }
        i = i + 1;
    }
    assert(lists.take(cells@.len() as int) =~= lists);
    valid
}


/// Whether `restriction` is what a boundary gives at a zoom level: nothing
/// where there is no boundary, else the cells that the grid resolver finds
/// for its polygons.
pub open spec fn boundary_gives<P, G: Fn(&P, u8) -> Result<Vec<HexCell>, InfraHexError>>(
    resolve_boundary: G,
    boundary: BoundaryFilter<P>,
    zoom: u8,
    restriction: Option<Set<Seq<char>>>,
) -> bool {
    match boundary.members() {
        None => restriction is None,
        Some(polygons) => restriction matches Some(valid) && exists|cells: Seq<Vec<HexCell>>|
            {
                &&& #[trigger] resolves_to(resolve_boundary, polygons, zoom, cells)
                &&& forall|id: Seq<char>|
                    valid.contains(id) <==> has_id(all_cells(cell_lists(cells)), id)
            },
    }
}

/// Whether the grid resolver fails with `error` on a polygon of a boundary.
pub open spec fn boundary_fails<P, G: Fn(&P, u8) -> Result<Vec<HexCell>, InfraHexError>>(
    resolve_boundary: G,
    boundary: BoundaryFilter<P>,
    zoom: u8,
    error: InfraHexError,
) -> bool {
    boundary.members() matches Some(polygons) && fails_on(resolve_boundary, polygons, zoom, error)
}

/// The per-cell summary of `records` within a boundary: the valid cells of
/// the boundary are found first, then the cells of the records are counted
/// under them.
pub fn to_hex_summary_for<T, R, P, F, G>(
    records: &Vec<R>,
    zoom: u8,
    boundary: &BoundaryFilter<P>,
    with_geometry: bool,
    resolve: &F,
    resolve_boundary: &G,
) -> (outcome: Result<Vec<SummaryRow>, InfraHexError>) where
    T: Copy,
    R: PipelineData<T>,
    F: Fn(&LineString<T>, u8) -> Result<Vec<HexCell>, InfraHexError>,
    G: Fn(&P, u8) -> Result<Vec<HexCell>, InfraHexError>,

    requires
        all_extractable(*resolve, records@, zoom),
        boundary.members() matches Some(polygons) ==> resolvable(
            *resolve_boundary,
            polygons,
            zoom,
        ),
    ensures
        match outcome {
            Ok(rows) => exists|restriction: Option<Set<Seq<char>>>, cells: Seq<Vec<HexCell>>|
                {
                    &&& boundary_gives(*resolve_boundary, *boundary, zoom, restriction)
                    &&& extracts(*resolve, records@, zoom, cells)
                    &&& #[trigger] is_summary(
                        rows@,
                        cell_lists(cells),
                        restriction,
                        with_geometry,
                    )
                },
            Err(error) => boundary_fails(*resolve_boundary, *boundary, zoom, error)
                || extraction_fails(*resolve, records@, zoom, error),
        },
{
    let valid = match boundary.valid_cell_ids(zoom, resolve_boundary) {
        Ok(valid) => valid,
        Err(error) => {
            return Err(error);
        },
    };
    assert(boundary_gives(*resolve_boundary, *boundary, zoom, restriction_view(valid)));
    to_hex_summary_within(records, zoom, &valid, with_geometry, resolve)
}

/// The per-record table of `records` within a boundary: the valid cells of
/// the boundary are found first, then each record gets its row under them.
pub fn to_record_batch_for<T, R, P, F, G>(
    records: &Vec<R>,
    zoom: u8,
    boundary: &BoundaryFilter<P>,
    with_geometry: bool,
    resolve: &F,
    resolve_boundary: &G,
) -> (outcome: Result<Vec<RecordRow>, InfraHexError>) where
    T: Copy,
    R: PipelineData<T>,
    F: Fn(&LineString<T>, u8) -> Result<Vec<HexCell>, InfraHexError>,
    G: Fn(&P, u8) -> Result<Vec<HexCell>, InfraHexError>,

    requires
        all_extractable(*resolve, records@, zoom),
        boundary.members() matches Some(polygons) ==> resolvable(
            *resolve_boundary,
            polygons,
            zoom,
        ),
    ensures
        match outcome {
            Ok(rows) => exists|restriction: Option<Set<Seq<char>>>, cells: Seq<Vec<HexCell>>|
                {
                    &&& boundary_gives(*resolve_boundary, *boundary, zoom, restriction)
                    &&& extracts(*resolve, records@, zoom, cells)
                    &&& #[trigger] is_record_table(
                        rows@,
                        records@,
                        cells,
                        restriction,
                        with_geometry,
                    )
                },
            Err(error) => boundary_fails(*resolve_boundary, *boundary, zoom, error)
                || extraction_fails(*resolve, records@, zoom, error),
        },
{
    let valid = match boundary.valid_cell_ids(zoom, resolve_boundary) {
        Ok(valid) => valid,
        Err(error) => {
            return Err(error);
        },
    };
    assert(boundary_gives(*resolve_boundary, *boundary, zoom, restriction_view(valid)));
    to_record_batch_within(records, zoom, &valid, with_geometry, resolve)
}

} // verus!

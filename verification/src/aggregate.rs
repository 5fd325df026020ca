use vstd::prelude::*;
use crate::cells::{cell_lists, restriction_view, CellIdSet, HexCell};
use crate::error::InfraHexError;
use crate::geometry::LineString;
use crate::hex::{cells_of, extractable, get_hex_cells};
use crate::summary::{is_summary, summarize_cells, SummaryRow};
use crate::table::{is_record_row, record_rows, PipelineData, RecordRow};

verus! {

/// Whether the grid resolver has answered each of `items` with the cells of
/// `cells`, one list for one item.
pub open spec fn resolves_to<X, F: Fn(&X, u8) -> Result<Vec<HexCell>, InfraHexError>>(
    resolve: F,
    items: Seq<X>,
    zoom: u8,
    cells: Seq<Vec<HexCell>>,
) -> bool {
    &&& cells.len() == items.len()
    &&& forall|i: int|
        0 <= i < items.len() ==> resolve.ensures(
            (&#[trigger] items[i], zoom),
            Ok::<Vec<HexCell>, InfraHexError>(cells[i]),
        )
}

/// Whether the grid resolver has failed with `error` on one of `items`.
pub open spec fn fails_on<X, F: Fn(&X, u8) -> Result<Vec<HexCell>, InfraHexError>>(
    resolve: F,
    items: Seq<X>,
    zoom: u8,
    error: InfraHexError,
) -> bool {
    exists|i: int|
        0 <= i < items.len() && resolve.ensures(
            (&#[trigger] items[i], zoom),
            Err::<Vec<HexCell>, InfraHexError>(error),
        )
}

/// Whether the grid resolver may be asked about each of `items`.
pub open spec fn resolvable<X, F: Fn(&X, u8) -> Result<Vec<HexCell>, InfraHexError>>(
    resolve: F,
    items: Seq<X>,
    zoom: u8,
) -> bool {
    forall|i: int| 0 <= i < items.len() ==> resolve.requires((&#[trigger] items[i], zoom))
}

/// Asks the grid resolver for the cells of each item, in order. The first
/// failure ends the whole extraction with that error.
pub fn resolve_each<X, F>(items: &Vec<X>, zoom: u8, resolve: &F) -> (outcome: Result<
    Vec<Vec<HexCell>>,
    InfraHexError,
>) where F: Fn(&X, u8) -> Result<Vec<HexCell>, InfraHexError>
    requires
        resolvable(*resolve, items@, zoom),
    ensures
        match outcome {
            Ok(cells) => resolves_to(*resolve, items@, zoom, cells@),
            Err(error) => fails_on(*resolve, items@, zoom, error),
        },
{
    let mut cells: Vec<Vec<HexCell>> = Vec::new();
    let mut i: usize = 0;
    while i < items.len()
        invariant
            i <= items@.len(),
            cells@.len() == i,
            resolvable(*resolve, items@, zoom),
            forall|k: int|
                0 <= k < i ==> resolve.ensures(
                    (&#[trigger] items@[k], zoom),
                    Ok::<Vec<HexCell>, InfraHexError>(cells@[k]),
                ),
        decreases items@.len() - i,
    {
        let item = &items[i];
        assert(resolve.requires((&items@[i as int], zoom)));
        match resolve(item, zoom) {
            Ok(list) => {
                cells.push(list);
            },
            Err(error) => {
                assert(resolve.ensures(
                    (&items@[i as int], zoom),
                    Err::<Vec<HexCell>, InfraHexError>(error),
                ));
                return Err(error);
            },
        }
        i = i + 1;
    }
    Ok(cells)
}

/// Whether `cells` are the cells of `records`, one list for one record.
pub open spec fn extracts<T: Copy, R: PipelineData<T>, F: Fn(&LineString<T>, u8) -> Result<
    Vec<HexCell>,
    InfraHexError,
>>(resolve: F, records: Seq<R>, zoom: u8, cells: Seq<Vec<HexCell>>) -> bool {
    &&& cells.len() == records.len()
    &&& forall|i: int|
        0 <= i < records.len() ==> cells_of(
            resolve,
            (#[trigger] records[i]).shape(),
            zoom,
            Ok::<Vec<HexCell>, InfraHexError>(cells[i]),
        )
}

/// Whether the extraction of the cells of one of `records` fails with
/// `error`.
pub open spec fn extraction_fails<T: Copy, R: PipelineData<T>, F: Fn(&LineString<T>, u8) -> Result<
    Vec<HexCell>,
    InfraHexError,
>>(resolve: F, records: Seq<R>, zoom: u8, error: InfraHexError) -> bool {
    exists|i: int|
        0 <= i < records.len() && cells_of(
            resolve,
            (#[trigger] records[i]).shape(),
            zoom,
            Err::<Vec<HexCell>, InfraHexError>(error),
        )
}

/// Whether the cells of each of `records` can be asked for.
pub open spec fn all_extractable<T: Copy, R: PipelineData<T>, F: Fn(&LineString<T>, u8) -> Result<
    Vec<HexCell>,
    InfraHexError,
>>(resolve: F, records: Seq<R>, zoom: u8) -> bool {
    forall|i: int|
        0 <= i < records.len() ==> extractable(resolve, (#[trigger] records[i]).shape(), zoom)
}

/// Extracts the cells of each record, in the order of the records. The first
/// failure ends the whole extraction with that error: a geometry that cannot
/// be resolved is a fault of the data, which no row can mend.
pub fn extract_cells<T, R, F>(records: &Vec<R>, zoom: u8, resolve: &F) -> (outcome: Result<
    Vec<Vec<HexCell>>,
    InfraHexError,
>) where
    T: Copy,
    R: PipelineData<T>,
    F: Fn(&LineString<T>, u8) -> Result<Vec<HexCell>, InfraHexError>,

    requires
        all_extractable(*resolve, records@, zoom),
    ensures
        match outcome {
            Ok(cells) => extracts(*resolve, records@, zoom, cells@),
            Err(error) => extraction_fails(*resolve, records@, zoom, error),
        },
{
    let mut cells: Vec<Vec<HexCell>> = Vec::new();
    let mut i: usize = 0;
    while i < records.len()
        invariant
            i <= records@.len(),
            cells@.len() == i,
            all_extractable(*resolve, records@, zoom),
            forall|k: int|
                0 <= k < i ==> cells_of(
                    *resolve,
                    (#[trigger] records@[k]).shape(),
                    zoom,
                    Ok::<Vec<HexCell>, InfraHexError>(cells@[k]),
                ),
        decreases records@.len() - i,
    {
        let record = &records[i];
        assert(extractable(*resolve, records@[i as int].shape(), zoom));
        match get_hex_cells(record, zoom, resolve) {
            Ok(list) => {
                cells.push(list);
            },
            Err(error) => {
                assert(cells_of(
                    *resolve,
                    records@[i as int].shape(),
                    zoom,
                    Err::<Vec<HexCell>, InfraHexError>(error),
                ));
                return Err(error);
            },
        }
        i = i + 1;
    }
    Ok(cells)
}

/// The per-cell summary of `records` under a restriction: the grid resolver
/// is asked for the cells of each record, and the cells are counted.
pub fn to_hex_summary_within<T, R, F>(
    records: &Vec<R>,
    zoom: u8,
    restriction: &Option<CellIdSet>,
    with_geometry: bool,
    resolve: &F,
) -> (outcome: Result<Vec<SummaryRow>, InfraHexError>) where
    T: Copy,
    R: PipelineData<T>,
    F: Fn(&LineString<T>, u8) -> Result<Vec<HexCell>, InfraHexError>,

    requires
        all_extractable(*resolve, records@, zoom),
    ensures
        match outcome {
            Ok(rows) => exists|cells: Seq<Vec<HexCell>>|
                {
                    &&& #[trigger] extracts(*resolve, records@, zoom, cells)
                    &&& is_summary(
                        rows@,
                        cell_lists(cells),
                        restriction_view(*restriction),
                        with_geometry,
                    )
                },
            Err(error) => extraction_fails(*resolve, records@, zoom, error),
        },
{
    match extract_cells(records, zoom, resolve) {
        Ok(cells) => {
            let rows = summarize_cells(&cells, restriction, with_geometry);
            assert(extracts(*resolve, records@, zoom, cells@));
            Ok(rows)
        },
        Err(error) => Err(error),
    }
}

/// Whether `rows` is the per-record table of `records`, whose geometries
/// touch `cells`.
pub open spec fn is_record_table<T, R: PipelineData<T>>(
    rows: Seq<RecordRow>,
    records: Seq<R>,
    cells: Seq<Vec<HexCell>>,
    restriction: Option<Set<Seq<char>>>,
    with_geometry: bool,
) -> bool {
    &&& rows.len() == records.len()
    &&& cells.len() == records.len()
    &&& forall|i: int|
        0 <= i < rows.len() ==> is_record_row(
            #[trigger] rows[i],
            records[i],
            cells[i]@,
            restriction,
            with_geometry,
        )
}

/// The per-record table of `records` under a restriction: the grid resolver
/// is asked for the cells of each record, and each record gets its row.
pub fn to_record_batch_within<T, R, F>(
    records: &Vec<R>,
    zoom: u8,
    restriction: &Option<CellIdSet>,
    with_geometry: bool,
    resolve: &F,
) -> (outcome: Result<Vec<RecordRow>, InfraHexError>) where
    T: Copy,
    R: PipelineData<T>,
    F: Fn(&LineString<T>, u8) -> Result<Vec<HexCell>, InfraHexError>,

    requires
        all_extractable(*resolve, records@, zoom),
    ensures
        match outcome {
            Ok(rows) => exists|cells: Seq<Vec<HexCell>>|
                {
                    &&& #[trigger] extracts(*resolve, records@, zoom, cells)
                    &&& is_record_table(
                        rows@,
                        records@,
                        cells,
                        restriction_view(*restriction),
                        with_geometry,
                    )
                },
            Err(error) => extraction_fails(*resolve, records@, zoom, error),
        },
{
    match extract_cells(records, zoom, resolve) {
        Ok(cells) => {
            let rows = record_rows(records, &cells, restriction, with_geometry);
            assert(extracts(*resolve, records@, zoom, cells@));
            assert(is_record_table(
                rows@,
                records@,
                cells@,
                restriction_view(*restriction),
                with_geometry,
            ));
            Ok(rows)
        },
        Err(error) => Err(error),
    }
}

/// The per-cell summary of `records` with the cell of each row, without a
/// boundary.
pub fn to_hex_summary<T, R, F>(records: &Vec<R>, zoom: u8, resolve: &F) -> (outcome: Result<
    Vec<SummaryRow>,
    InfraHexError,
>) where
    T: Copy,
    R: PipelineData<T>,
    F: Fn(&LineString<T>, u8) -> Result<Vec<HexCell>, InfraHexError>,

    requires
        all_extractable(*resolve, records@, zoom),
    ensures
        match outcome {
            Ok(rows) => exists|cells: Seq<Vec<HexCell>>|
                {
                    &&& #[trigger] extracts(*resolve, records@, zoom, cells)
                    &&& is_summary(rows@, cell_lists(cells), None, true)
                },
            Err(error) => extraction_fails(*resolve, records@, zoom, error),
        },
{
    to_hex_summary_within(records, zoom, &None, true, resolve)
}

/// The per-cell summary of `records` with identifiers and counts only,
/// without a boundary.
pub fn to_hex_summary_no_geom<T, R, F>(records: &Vec<R>, zoom: u8, resolve: &F) -> (outcome: Result<
    Vec<SummaryRow>,
    InfraHexError,
>) where
    T: Copy,
    R: PipelineData<T>,
    F: Fn(&LineString<T>, u8) -> Result<Vec<HexCell>, InfraHexError>,

    requires
        all_extractable(*resolve, records@, zoom),
    ensures
        match outcome {
            Ok(rows) => exists|cells: Seq<Vec<HexCell>>|
                {
                    &&& #[trigger] extracts(*resolve, records@, zoom, cells)
                    &&& is_summary(rows@, cell_lists(cells), None, false)
                },
            Err(error) => extraction_fails(*resolve, records@, zoom, error),
        },
{
    to_hex_summary_within(records, zoom, &None, false, resolve)
}

/// The per-record table of `records` with the cells of each row, without a
/// boundary.
pub fn to_record_batch<T, R, F>(records: &Vec<R>, zoom: u8, resolve: &F) -> (outcome: Result<
    Vec<RecordRow>,
    InfraHexError,
>) where
    T: Copy,
    R: PipelineData<T>,
    F: Fn(&LineString<T>, u8) -> Result<Vec<HexCell>, InfraHexError>,

    requires
        all_extractable(*resolve, records@, zoom),
    ensures
        match outcome {
            Ok(rows) => exists|cells: Seq<Vec<HexCell>>|
                {
                    &&& #[trigger] extracts(*resolve, records@, zoom, cells)
                    &&& is_record_table(rows@, records@, cells, None, true)
                },
            Err(error) => extraction_fails(*resolve, records@, zoom, error),
        },
{
    to_record_batch_within(records, zoom, &None, true, resolve)
}

/// The per-record table of `records` with attributes and identifiers only,
/// without a boundary.
pub fn to_record_batch_no_geom<T, R, F>(records: &Vec<R>, zoom: u8, resolve: &F) -> (outcome: Result<
    Vec<RecordRow>,
    InfraHexError,
>) where
    T: Copy,
    R: PipelineData<T>,
    F: Fn(&LineString<T>, u8) -> Result<Vec<HexCell>, InfraHexError>,

    requires
        all_extractable(*resolve, records@, zoom),
    ensures
        match outcome {
            Ok(rows) => exists|cells: Seq<Vec<HexCell>>|
                {
                    &&& #[trigger] extracts(*resolve, records@, zoom, cells)
                    &&& is_record_table(rows@, records@, cells, None, false)
                },
            Err(error) => extraction_fails(*resolve, records@, zoom, error),
        },
{
    to_record_batch_within(records, zoom, &None, false, resolve)
}


/// The first failure among some outcomes, or their number where none failed.
pub open spec fn first_failure(outcomes: Seq<Result<Vec<HexCell>, InfraHexError>>) -> int
    decreases outcomes.len(),
{
    if outcomes.len() == 0 {
        0
    } else if outcomes[0] is Err {
        0
    } else {
        1 + first_failure(outcomes.skip(1))
    }
}

/// The first failure lies among the outcomes or behind them, and before it
/// nothing failed.
pub proof fn lemma_first_failure(outcomes: Seq<Result<Vec<HexCell>, InfraHexError>>)
    ensures
        0 <= first_failure(outcomes) <= outcomes.len(),
        first_failure(outcomes) < outcomes.len() ==> outcomes[first_failure(outcomes)] is Err,
        forall|i: int| 0 <= i < first_failure(outcomes) ==> (#[trigger] outcomes[i]) is Ok,
    decreases outcomes.len(),
{
    if outcomes.len() > 0 && outcomes[0] is Ok {
        let rest = outcomes.skip(1);
        lemma_first_failure(rest);
        assert forall|i: int| 0 <= i < first_failure(outcomes) implies (#[trigger] outcomes[i])
            is Ok by {
            if i > 0 {
                assert(rest[i - 1] == outcomes[i]);
            }
        }
    }
}

/// Gathers the cell lists of records whose cells were extracted one by one,
/// in any order or at the same time. Where an extraction failed, the whole
/// fails, with the error of the first record that failed.
pub fn collect_cells(outcomes: Vec<Result<Vec<HexCell>, InfraHexError>>) -> (gathered: Result<
    Vec<Vec<HexCell>>,
    InfraHexError,
>)
    ensures
        match gathered {
            Ok(cells) => cells@.len() == outcomes@.len() && forall|i: int|
                0 <= i < outcomes@.len() ==> #[trigger] outcomes@[i] == Ok::<
                    Vec<HexCell>,
                    InfraHexError,
                >(cells@[i]),
            Err(error) => 0 <= first_failure(outcomes@) < outcomes@.len() && outcomes@[first_failure(
                outcomes@,
            )] == Err::<Vec<HexCell>, InfraHexError>(error),
        },
{
    let ghost all = outcomes@;
    let mut pending = outcomes;
    let mut later: Vec<Vec<HexCell>> = Vec::new();
    let mut failure: Option<InfraHexError> = None;
    while pending.len() > 0
        invariant
            pending@ == all.take(pending@.len() as int),
            pending@.len() <= all.len(),
            match failure {
                Some(error) => {
                    let at = pending@.len() + first_failure(all.skip(pending@.len() as int));
                    &&& at < all.len()
                    &&& all[at] == Err::<Vec<HexCell>, InfraHexError>(error)
                },
                None => {
                    &&& first_failure(all.skip(pending@.len() as int)) == all.len()
                        - pending@.len()
                    &&& later@.len() == all.len() - pending@.len()
                    &&& forall|k: int|
                        0 <= k < later@.len() ==> #[trigger] all[all.len() - 1 - k] == Ok::<
                            Vec<HexCell>,
                            InfraHexError,
                        >(later@[k])
                },
            },
        decreases pending@.len(),
    {
        let ghost at = pending@.len() - 1;
        proof {
            let rest = all.skip(at);
            assert(rest[0] == all[at]);
            assert(rest.skip(1) =~= all.skip(at + 1));
            lemma_first_failure(rest.skip(1));
        }
        match pending.pop().unwrap() {
            Ok(list) => {
                if failure.is_none() {
                    later.push(list);
                }
            },
            Err(error) => {
                failure = Some(error);
            },
        }
    }
    assert(all.skip(0) =~= all);
    proof {
        lemma_first_failure(all);
    }
    match failure {
        Some(error) => {
            assert(all[first_failure(all)] == Err::<Vec<HexCell>, InfraHexError>(error));
            Err(error)
        },
        None => {
            let mut cells: Vec<Vec<HexCell>> = Vec::new();
            let ghost reversed = later@;
            while later.len() > 0
                invariant
                    later@ == reversed.take(later@.len() as int),
                    later@.len() <= reversed.len(),
                    reversed.len() == all.len(),
                    cells@.len() == reversed.len() - later@.len(),
                    forall|k: int|
                        0 <= k < reversed.len() ==> #[trigger] all[all.len() - 1 - k] == Ok::<
                            Vec<HexCell>,
                            InfraHexError,
                        >(reversed[k]),
                    forall|i: int|
                        0 <= i < cells@.len() ==> #[trigger] cells@[i] == reversed[reversed.len()
                            - 1 - i],
                decreases later@.len(),
            {
                let list = later.pop().unwrap();
                cells.push(list);
            }
            assert(later@.len() == 0);
            assert(cells@.len() == all.len());
            assert forall|i: int| 0 <= i < all.len() implies #[trigger] all[i] == Ok::<
                Vec<HexCell>,
                InfraHexError,
            >(cells@[i]) by {
                let k = all.len() - 1 - i;
                assert(all[all.len() - 1 - k] == Ok::<Vec<HexCell>, InfraHexError>(reversed[k]));
                assert(cells@[i] == reversed[reversed.len() - 1 - i]);
            }
            Ok(cells)
        },
    }
}

} // verus!

use vstd::prelude::*;
use crate::cells::{
    all_cells, allows, cell_lists, distinct_cells, find_cell, first_seen, has_id,
    lemma_distinct_cells, lemma_first_seen, lemma_has_id_concat, lemma_has_id_push,
    lemma_one_more_cell, lemma_surviving, lemma_touch_count, rank_of, restriction_allows,
    restriction_view, surviving, touch_count, touches, CellIdSet, HexCell,
};

verus! {

/// One row of the per-cell summary: a cell, the number of records that touch
/// it, and, where the geometry is asked for, the cell as it was first met.
#[derive(Debug, PartialEq, Eq)]
pub struct SummaryRow {
    pub hex_id: String,
    pub pipe_count: usize,
    pub cell: Option<HexCell>,
}

/// The order of the summary: the row with the higher count comes first, and of
/// two rows with one count the row whose cell was met first.
pub open spec fn ordered_before(a: SummaryRow, b: SummaryRow, listed: Seq<HexCell>) -> bool {
    a.pipe_count > b.pipe_count || (a.pipe_count == b.pipe_count && rank_of(listed, a.hex_id@)
        < rank_of(listed, b.hex_id@))
}

/// Whether `rows` is the per-cell summary of `records` under a restriction:
/// one row for each cell that some record touches, with the number of records
/// that touch it, in the order of `ordered_before`.
pub open spec fn is_summary(
    rows: Seq<SummaryRow>,
    records: Seq<Seq<HexCell>>,
    restriction: Option<Set<Seq<char>>>,
    with_geometry: bool,
) -> bool {
    let listed = first_seen(records, restriction);
    &&& rows.len() == listed.len()
    &&& forall|k: int|
        0 <= k < rows.len() ==> {
            &&& has_id(listed, (#[trigger] rows[k]).hex_id@)
            &&& rows[k].pipe_count == touch_count(records, restriction, rows[k].hex_id@)
            &&& rows[k].cell == if with_geometry {
                Some(listed[rank_of(listed, rows[k].hex_id@)])
            } else {
                None::<HexCell>
            }
        }
    &&& forall|i: int, j: int|
        0 <= i < j < rows.len() ==> ordered_before(#[trigger] rows[i], #[trigger] rows[j], listed)
}

/// Counts, for every cell that some record touches, the records that touch
/// it. The cells come in the order in which they were first met; the counts
/// stand beside them.
pub fn tally_cells(cells: &Vec<Vec<HexCell>>, restriction: &Option<CellIdSet>) -> (tally: (
    Vec<HexCell>,
    Vec<usize>,
))
    ensures
        tally.0@ == first_seen(cell_lists(cells@), restriction_view(*restriction)),
        tally.1@.len() == tally.0@.len(),
        forall|k: int|
            0 <= k < tally.0@.len() ==> #[trigger] tally.1@[k] == touch_count(
                cell_lists(cells@),
                restriction_view(*restriction),
                tally.0@[k].id@,
            ),
{
    let ghost records = cell_lists(cells@);
    let ghost limit = restriction_view(*restriction);
    let mut seen: Vec<HexCell> = Vec::new();
    let mut counts: Vec<usize> = Vec::new();
    let mut r: usize = 0;
    assert(records.take(0) =~= Seq::<Seq<HexCell>>::empty());
    assert(surviving(Seq::<HexCell>::empty(), limit) =~= Seq::<HexCell>::empty()) by {
        lemma_surviving(Seq::<HexCell>::empty(), limit);
    }
    while r < cells.len()
        invariant
            r <= cells@.len(),
            records == cell_lists(cells@),
            limit == restriction_view(*restriction),
            seen@ == first_seen(records.take(r as int), limit),
            counts@.len() == seen@.len(),
            forall|k: int|
                0 <= k < seen@.len() ==> #[trigger] counts@[k] == touch_count(
                    records.take(r as int),
                    limit,
                    seen@[k].id@,
                ),
        decreases cells@.len() - r,
    {
        let list = &cells[r];
        let ghost done = records.take(r as int);
        let ghost earlier = all_cells(done);
        let ghost here = records[r as int];
        assert(here == list@);
        let mut p: usize = 0;
        assert(earlier + here.take(0) =~= earlier);
        assert(here.take(0) =~= Seq::<HexCell>::empty());
        while p < list.len()
            invariant
                p <= list@.len(),
                r < cells@.len(),
                r < usize::MAX,
                here == list@,
                limit == restriction_view(*restriction),
                done == records.take(r as int),
                done.len() == r,
                earlier == all_cells(done),
                seen@ == distinct_cells(surviving(earlier + here.take(p as int), limit)),
                counts@.len() == seen@.len(),
                forall|k: int|
                    0 <= k < seen@.len() ==> #[trigger] counts@[k] == touch_count(
                        done,
                        limit,
                        seen@[k].id@,
                    ) + (if touches(here.take(p as int), limit, seen@[k].id@) {
                        1nat
                    } else {
                        0nat
                    }),
            decreases list@.len() - p,
        {
            let cell = &list[p];
            let ghost id = cell.id@;
            let ghost met = earlier + here.take(p as int);
            let ghost seen_before = seen@;
            let ghost counts_before = counts@;
            proof {
                assert(earlier + here.take(p + 1) =~= met.push(*cell));
                assert(here.take(p + 1) =~= here.take(p as int).push(*cell));
                lemma_one_more_cell(met, *cell, limit);
                lemma_one_more_cell(surviving(met, limit), *cell, limit);
                lemma_surviving(met, limit);
                lemma_distinct_cells(surviving(met, limit));
                lemma_has_id_concat(earlier, here.take(p as int), id);
                lemma_touch_count(done, limit, id);
                assert forall|other: Seq<char>|
                    touches(here.take(p + 1), limit, other) <==> touches(
                        here.take(p as int),
                        limit,
                        other,
                    ) || (other == id && allows(limit, id)) by {
                    lemma_has_id_push(here.take(p as int), *cell, other);
                }
            }
            if restriction_allows(restriction, &cell.id) {
                match find_cell(&seen, seen.len(), &cell.id) {
                    Some(k) => {
                        assert(seen@.take(seen@.len() as int) =~= seen@);
                        assert(has_id(seen@, id));
                        let again = find_cell(list, p, &cell.id);
                        if again.is_none() {
                            let count = counts[k];
                            assert(!touches(here.take(p as int), limit, id));
                            assert(seen@[k as int].id@ == id);
                            assert(count == touch_count(done, limit, id));
                            assert(count <= r);
                            counts.set(k, count + 1);
                        } else {
                            assert(has_id(here.take(p as int), id)) by {
                                let j = again.unwrap() as int;
                                assert(here.take(p as int)[j].id@ == id);
                            }
                        }
                    },
                    None => {
                        assert(seen@.take(seen@.len() as int) =~= seen@);
                        seen.push(cell.clone());
                        counts.push(1);
                    },
                }
            }
            p = p + 1;
        }
        proof {
            assert(here.take(list@.len() as int) =~= here);
            let grown = records.take(r + 1);
            assert(grown.drop_last() =~= done);
            assert(grown.last() == here);
        }
        r = r + 1;
    }
    assert(records.take(cells@.len() as int) =~= records);
    (seen, counts)
}


/// Whether a row stands for the cell at `rank` of a tally.
pub open spec fn row_of_tally(
    row: SummaryRow,
    cells: Seq<HexCell>,
    counts: Seq<usize>,
    with_geometry: bool,
    rank: int,
) -> bool {
    &&& row.hex_id@ == cells[rank].id@
    &&& row.pipe_count == counts[rank]
    &&& row.cell == if with_geometry {
        Some(cells[rank])
    } else {
        None::<HexCell>
    }
}

/// Puts a tally into the order of the summary: higher counts first, and cells
/// with one count in the order of the tally.
pub fn rank_rows(cells: Vec<HexCell>, counts: Vec<usize>, with_geometry: bool) -> (rows: Vec<
    SummaryRow,
>)
    requires
        cells@.len() == counts@.len(),
        forall|i: int, j: int|
            0 <= i < j < cells@.len() ==> (#[trigger] cells@[i]).id@ != (#[trigger] cells@[j]).id@,
    ensures
        rows@.len() == cells@.len(),
        forall|k: int|
            0 <= k < rows@.len() ==> {
                &&& has_id(cells@, (#[trigger] rows@[k]).hex_id@)
                &&& row_of_tally(
                    rows@[k],
                    cells@,
                    counts@,
                    with_geometry,
                    rank_of(cells@, rows@[k].hex_id@),
                )
            },
        forall|i: int, j: int|
            0 <= i < j < rows@.len() ==> ordered_before(
                #[trigger] rows@[i],
                #[trigger] rows@[j],
                cells@,
            ),
{
    let ghost all = cells@;
    let ghost tally = counts@;
    let mut cells = cells;
    let mut counts = counts;
    let mut rows: Vec<SummaryRow> = Vec::new();
    proof {
        assert forall|m: int| 0 <= m < all.len() implies rank_of(all, (#[trigger] all[m]).id@)
            == m by {
            let r = rank_of(all, all[m].id@);
            if r < m {
                assert(all[r].id@ != all[m].id@);
            } else if m < r {
                assert(all[m].id@ != all[r].id@);
            }
        }
    }
    while cells.len() > 0
        invariant
            all.len() == tally.len(),
            cells@ == all.take(cells@.len() as int),
            counts@ == tally.take(cells@.len() as int),
            cells@.len() <= all.len(),
            rows@.len() == all.len() - cells@.len(),
            forall|m: int| 0 <= m < all.len() ==> rank_of(all, (#[trigger] all[m]).id@) == m,
            forall|k: int|
                0 <= k < rows@.len() ==> {
                    &&& cells@.len() <= rank_of(all, (#[trigger] rows@[k]).hex_id@) < all.len()
                    &&& row_of_tally(
                        rows@[k],
                        all,
                        tally,
                        with_geometry,
                        rank_of(all, rows@[k].hex_id@),
                    )
                },
            forall|i: int, j: int|
                0 <= i < j < rows@.len() ==> ordered_before(
                    #[trigger] rows@[i],
                    #[trigger] rows@[j],
                    all,
                ),
        decreases cells@.len(),
    {
        let ghost rank = cells@.len() - 1;
        let cell = cells.pop().unwrap();
        let count = counts.pop().unwrap();
        assert(cell == all[rank]);
        assert(count == tally[rank]);
        let mut at: usize = 0;
        while at < rows.len() && rows[at].pipe_count > count
            invariant
                at <= rows@.len(),
                forall|i: int| 0 <= i < at ==> (#[trigger] rows@[i]).pipe_count > count,
            decreases rows@.len() - at,
        {
            at = at + 1;
        }
        let row = SummaryRow {
            hex_id: cell.id.clone(),
            pipe_count: count,
            cell: if with_geometry {
                Some(cell)
            } else {
                None
            },
        };
        let ghost before = rows@;
        assert forall|j: int| at <= j < before.len() implies (#[trigger] before[j]).pipe_count
            <= count by {
            if at < j {
                assert(ordered_before(before[at as int], before[j], all));
            }
        }
        rows.insert(at, row);
        assert(rank_of(all, row.hex_id@) == rank);
        assert forall|k: int| 0 <= k < rows@.len() implies {
            &&& cells@.len() <= rank_of(all, (#[trigger] rows@[k]).hex_id@) < all.len()
            &&& row_of_tally(rows@[k], all, tally, with_geometry, rank_of(all, rows@[k].hex_id@))
        } by {
            if k < at {
                assert(rows@[k] == before[k]);
            } else if k == at {
                assert(rows@[k] == row);
            } else {
                assert(rows@[k] == before[k - 1]);
            }
        }
        assert forall|i: int, j: int| 0 <= i < j < rows@.len() implies ordered_before(
            #[trigger] rows@[i],
            #[trigger] rows@[j],
            all,
        ) by {
            let a = if i < at {
                before[i]
            } else if i == at {
                row
            } else {
                before[i - 1]
            };
            let b = if j < at {
                before[j]
            } else if j == at {
                row
            } else {
                before[j - 1]
            };
            assert(rows@[i] == a);
            assert(rows@[j] == b);
            if i != at && j != at {
                let i0 = if i < at { i } else { i - 1 };
                let j0 = if j < at { j } else { j - 1 };
                assert(ordered_before(before[i0], before[j0], all));
            }
        }
    }
    assert forall|k: int| 0 <= k < rows@.len() implies has_id(all, (#[trigger] rows@[k]).hex_id@) by {
        let rank = rank_of(all, rows@[k].hex_id@);
        assert(all[rank].id@ == rows@[k].hex_id@);
    }
    rows
}

/// The per-cell summary of the cells of some records: for each cell that some
/// record touches under the restriction, the number of records that touch it,
/// highest count first.
pub fn summarize_cells(
    cells: &Vec<Vec<HexCell>>,
    restriction: &Option<CellIdSet>,
    with_geometry: bool,
) -> (rows: Vec<SummaryRow>)
    ensures
        is_summary(rows@, cell_lists(cells@), restriction_view(*restriction), with_geometry),
{
    let (seen, counts) = tally_cells(cells, restriction);
    proof {
        lemma_first_seen(cell_lists(cells@), restriction_view(*restriction));
    }
    rank_rows(seen, counts, with_geometry)
}

} // verus!

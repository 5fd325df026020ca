use vstd::prelude::*;
use crate::cells::{
    all_cells, allows, distinct_cells, first_seen, has_id, lemma_all_cells, lemma_distinct_cells,
    lemma_has_id_push, lemma_membership, lemma_surviving, membership, surviving, touch_count,
    touches, HexCell,
};
use crate::cells::{lemma_first_seen, rank_of};
use crate::summary::{is_summary, ordered_before, SummaryRow};
use vstd::set_lib::{lemma_int_range, lemma_subset_equality, set_int_range};

verus! {

/// A restriction that lets every one of some cells through leaves them as
/// they are.
pub proof fn lemma_surviving_all(cells: Seq<HexCell>, restriction: Option<Set<Seq<char>>>)
    requires
        forall|i: int| 0 <= i < cells.len() ==> allows(restriction, (#[trigger] cells[i]).id@),
    ensures
        surviving(cells, restriction) == cells,
    decreases cells.len(),
{
    let keep = |cell: HexCell| allows(restriction, cell.id@);
    if cells.len() == 0 {
        assert(surviving(cells, restriction) =~= cells);
    } else {
        let front = cells.drop_last();
        assert forall|i: int| 0 <= i < front.len() implies allows(
            restriction,
            (#[trigger] front[i]).id@,
        ) by {
            assert(front[i] == cells[i]);
        }
        lemma_surviving_all(front, restriction);
        assert(cells =~= front.push(cells.last()));
        front.lemma_filter_push(cells.last(), keep);
        assert(allows(restriction, cells[cells.len() - 1].id@));
    }
}

/// Two restrictions under which every record touches the cell `id` alike
/// give it one count.
pub proof fn lemma_touch_count_alike(
    records: Seq<Seq<HexCell>>,
    one: Option<Set<Seq<char>>>,
    other: Option<Set<Seq<char>>>,
    id: Seq<char>,
)
    requires
        forall|r: int|
            0 <= r < records.len() ==> touches(#[trigger] records[r], one, id) == touches(
                records[r],
                other,
                id,
            ),
    ensures
        touch_count(records, one, id) == touch_count(records, other, id),
    decreases records.len(),
{
    if records.len() > 0 {
        let front = records.drop_last();
        assert forall|r: int| 0 <= r < front.len() implies touches(#[trigger] front[r], one, id)
            == touches(front[r], other, id) by {
            assert(front[r] == records[r]);
        }
        lemma_touch_count_alike(front, one, other, id);
        assert(records.last() == records[records.len() - 1]);
    }
}

/// Two aggregations that list the same cells with the same counts have the
/// same summaries.
pub proof fn lemma_summary_alike(
    rows: Seq<SummaryRow>,
    records: Seq<Seq<HexCell>>,
    restriction: Option<Set<Seq<char>>>,
    other_records: Seq<Seq<HexCell>>,
    other_restriction: Option<Set<Seq<char>>>,
    with_geometry: bool,
)
    requires
        first_seen(records, restriction) == first_seen(other_records, other_restriction),
        forall|id: Seq<char>| #[trigger]
            touch_count(records, restriction, id) == touch_count(
                other_records,
                other_restriction,
                id,
            ),
    ensures
        is_summary(rows, records, restriction, with_geometry) <==> is_summary(
            rows,
            other_records,
            other_restriction,
            with_geometry,
        ),
{
    let listed = first_seen(records, restriction);
    if is_summary(rows, records, restriction, with_geometry) {
        assert forall|k: int| 0 <= k < rows.len() implies (#[trigger] rows[k]).pipe_count
            == touch_count(other_records, other_restriction, rows[k].hex_id@) by {
            assert(rows[k].pipe_count == touch_count(records, restriction, rows[k].hex_id@));
        }
    }
    if is_summary(rows, other_records, other_restriction, with_geometry) {
        assert forall|k: int| 0 <= k < rows.len() implies (#[trigger] rows[k]).pipe_count
            == touch_count(records, restriction, rows[k].hex_id@) by {
            assert(rows[k].pipe_count == touch_count(
                other_records,
                other_restriction,
                rows[k].hex_id@,
            ));
            assert(touch_count(records, restriction, rows[k].hex_id@) == touch_count(
                other_records,
                other_restriction,
                rows[k].hex_id@,
            ));
        }
    }
}

/// A boundary that leaves every cell valid that some record touches changes
/// nothing: the cells of each record, the cells of the summary, their counts
/// and with them the summary itself are those of the aggregation without a
/// boundary.
pub proof fn lemma_covering_boundary(
    records: Seq<Seq<HexCell>>,
    valid: Set<Seq<char>>,
    rows: Seq<SummaryRow>,
    with_geometry: bool,
)
    requires
        forall|id: Seq<char>| has_id(all_cells(records), id) ==> valid.contains(id),
    ensures
        first_seen(records, Some(valid)) == first_seen(records, None),
        forall|id: Seq<char>| #[trigger]
            touch_count(records, Some(valid), id) == touch_count(records, None, id),
        forall|r: int|
            0 <= r < records.len() ==> #[trigger] membership(records[r], Some(valid))
                == membership(records[r], None),
        is_summary(rows, records, Some(valid), with_geometry) <==> is_summary(
            rows,
            records,
            None,
            with_geometry,
        ),
{
    let cells = all_cells(records);
    lemma_all_cells(records);
    assert forall|i: int| 0 <= i < cells.len() implies allows(
        Some(valid),
        (#[trigger] cells[i]).id@,
    ) by {
        assert(has_id(cells, cells[i].id@));
    }
    lemma_surviving_all(cells, Some(valid));
    lemma_surviving_all(cells, None);
    assert forall|id: Seq<char>| #[trigger]
        touch_count(records, Some(valid), id) == touch_count(records, None, id) by {
        assert forall|r: int| 0 <= r < records.len() implies touches(
            #[trigger] records[r],
            Some(valid),
            id,
        ) == touches(records[r], None, id) by {
            if has_id(records[r], id) {
                assert(has_id(cells, id));
            }
        }
        lemma_touch_count_alike(records, Some(valid), None, id);
    }
    assert forall|r: int| 0 <= r < records.len() implies #[trigger] membership(
        records[r],
        Some(valid),
    ) == membership(records[r], None) by {
        let list = records[r];
        assert forall|i: int| 0 <= i < list.len() implies allows(
            Some(valid),
            (#[trigger] list[i]).id@,
        ) by {
            assert(has_id(list, list[i].id@));
            assert(has_id(cells, list[i].id@));
        }
        lemma_surviving_all(list, Some(valid));
        lemma_surviving_all(list, None);
    }
    lemma_summary_alike(rows, records, Some(valid), records, None, with_geometry);
}

/// The cells that each record counts for, record by record: the cell lists
/// of the per-record table.
pub open spec fn memberships(records: Seq<Seq<HexCell>>, restriction: Option<Set<Seq<char>>>) -> Seq<
    Seq<HexCell>,
> {
    records.map_values(|cells: Seq<HexCell>| membership(cells, restriction))
}

/// `listed`, extended by the cells of `more` that it does not name yet.
spec fn absorb(listed: Seq<HexCell>, more: Seq<HexCell>) -> Seq<HexCell>
    decreases more.len(),
{
    if more.len() == 0 {
        listed
    } else {
        let before = absorb(listed, more.drop_last());
        if has_id(before, more.last().id@) {
            before
        } else {
            before.push(more.last())
        }
    }
}

proof fn lemma_absorb(listed: Seq<HexCell>, more: Seq<HexCell>)
    ensures
        forall|id: Seq<char>|
            #![trigger has_id(absorb(listed, more), id)]
            has_id(absorb(listed, more), id) <==> has_id(listed, id) || has_id(more, id),
    decreases more.len(),
{
    if more.len() > 0 {
        let front = more.drop_last();
        lemma_absorb(listed, front);
        assert(more =~= front.push(more.last()));
        assert forall|id: Seq<char>| #![trigger has_id(absorb(listed, more), id)]
            has_id(absorb(listed, more), id) <==> has_id(listed, id) || has_id(more, id) by {
            lemma_has_id_push(front, more.last(), id);
            lemma_has_id_push(absorb(listed, front), more.last(), id);
        }
    } else {
        assert forall|id: Seq<char>| !has_id(more, id) by {}
    }
}

proof fn lemma_distinct_of_concat(a: Seq<HexCell>, b: Seq<HexCell>)
    ensures
        distinct_cells(a + b) == absorb(distinct_cells(a), b),
    decreases b.len(),
{
    if b.len() == 0 {
        assert(a + b =~= a);
    } else {
        lemma_distinct_of_concat(a, b.drop_last());
        assert((a + b).drop_last() =~= a + b.drop_last());
        assert((a + b).last() == b.last());
    }
}

proof fn lemma_absorb_distinct(listed: Seq<HexCell>, more: Seq<HexCell>)
    ensures
        absorb(listed, distinct_cells(more)) == absorb(listed, more),
    decreases more.len(),
{
    if more.len() > 0 {
        let front = more.drop_last();
        let last = more.last();
        lemma_absorb_distinct(listed, front);
        lemma_distinct_cells(front);
        lemma_absorb(listed, front);
        lemma_absorb(listed, distinct_cells(front));
        if has_id(distinct_cells(front), last.id@) {
            assert(has_id(absorb(listed, front), last.id@));
        } else {
            assert(distinct_cells(more).drop_last() =~= distinct_cells(front));
        }
    }
}

/// Counting from the per-record table is counting from the records: the
/// cells that the rows of the table name, counted without a boundary, give
/// the cells, the counts and the summary of the records under the boundary
/// that the table was built with.
pub proof fn lemma_round_trip(
    records: Seq<Seq<HexCell>>,
    restriction: Option<Set<Seq<char>>>,
    rows: Seq<SummaryRow>,
    with_geometry: bool,
)
    ensures
        first_seen(memberships(records, restriction), None) == first_seen(records, restriction),
        forall|id: Seq<char>| #[trigger]
            touch_count(memberships(records, restriction), None, id) == touch_count(
                records,
                restriction,
                id,
            ),
        is_summary(rows, memberships(records, restriction), None, with_geometry) <==> is_summary(
            rows,
            records,
            restriction,
            with_geometry,
        ),
{
    lemma_tabled_cells(records, restriction);
    lemma_summary_alike(
        rows,
        memberships(records, restriction),
        None,
        records,
        restriction,
        with_geometry,
    );
}

/// The cells and the counts of the per-record table are those of the records.
pub proof fn lemma_tabled_cells(records: Seq<Seq<HexCell>>, restriction: Option<Set<Seq<char>>>)
    ensures
        first_seen(memberships(records, restriction), None) == first_seen(records, restriction),
        forall|id: Seq<char>| #[trigger]
            touch_count(memberships(records, restriction), None, id) == touch_count(
                records,
                restriction,
                id,
            ),
    decreases records.len(),
{
    let tabled = memberships(records, restriction);
    if records.len() == 0 {
        assert(tabled =~= Seq::<Seq<HexCell>>::empty());
        lemma_surviving(Seq::<HexCell>::empty(), restriction);
        lemma_surviving(Seq::<HexCell>::empty(), None);
        assert(surviving(Seq::<HexCell>::empty(), restriction) =~= Seq::<HexCell>::empty());
    } else {
        let front = records.drop_last();
        let last = records.last();
        let tabled_front = memberships(front, restriction);
        lemma_tabled_cells(front, restriction);
        assert(tabled.drop_last() =~= tabled_front);
        assert(tabled.last() == membership(last, restriction));
        let keep = |cell: HexCell| allows(restriction, cell.id@);
        Seq::filter_distributes_over_add(all_cells(front), last, keep);
        lemma_surviving(all_cells(tabled), None);
        lemma_surviving(all_cells(tabled_front), None);
        lemma_distinct_of_concat(surviving(all_cells(front), restriction), surviving(last, restriction));
        lemma_distinct_of_concat(all_cells(tabled_front), membership(last, restriction));
        lemma_absorb_distinct(distinct_cells(all_cells(tabled_front)), surviving(last, restriction));
        assert forall|id: Seq<char>| #[trigger]
            touch_count(tabled, None, id) == touch_count(records, restriction, id) by {
            lemma_membership(last, restriction);
            assert(has_id(membership(last, restriction), id) <==> touches(last, restriction, id));
            assert(touches(tabled.last(), None, id) == touches(last, restriction, id));
            assert(touch_count(tabled_front, None, id) == touch_count(front, restriction, id));
            assert(touch_count(tabled, None, id) == touch_count(tabled.drop_last(), None, id) + (
            if touches(tabled.last(), None, id) {
                1nat
            } else {
                0nat
            }));
        }
    }
}


/// The order of the summary on the places of a tally: the place with the
/// higher count comes first, and of two places with one count the lower.
spec fn precedes(tally: Seq<nat>, one: int, other: int) -> bool {
    tally[one] > tally[other] || (tally[one] == tally[other] && one < other)
}

/// Whether `places` are places of a tally in the order of the summary.
spec fn in_summary_order(places: Seq<int>, tally: Seq<nat>) -> bool {
    &&& places.len() == tally.len()
    &&& forall|k: int| 0 <= k < places.len() ==> 0 <= #[trigger] places[k] < tally.len()
    &&& forall|i: int, j: int|
        0 <= i < j < places.len() ==> precedes(tally, #[trigger] places[i], #[trigger] places[j])
}

/// As many different places as there are places are all the places.
proof fn lemma_every_place_taken(places: Seq<int>, tally: Seq<nat>)
    requires
        in_summary_order(places, tally),
    ensures
        forall|place: int| 0 <= place < tally.len() ==> places.contains(place),
{
    let n = tally.len() as int;
    assert(places.no_duplicates()) by {
        assert forall|i: int, j: int|
            0 <= i < places.len() && 0 <= j < places.len() && i != j implies places[i]
            != places[j] by {
            if i < j {
                assert(precedes(tally, places[i], places[j]));
            } else {
                assert(precedes(tally, places[j], places[i]));
            }
        }
    }
    places.unique_seq_to_set();
    lemma_int_range(0, n);
    assert(places.to_set().subset_of(set_int_range(0, n))) by {
        assert forall|place: int| places.to_set().contains(place) implies set_int_range(
            0,
            n,
        ).contains(place) by {
            let k = choose|k: int| 0 <= k < places.len() && places[k] == place;
            assert(0 <= places[k] < n);
        }
    }
    vstd::set_lib::lemma_len_subset(places.to_set(), set_int_range(0, n));
    lemma_subset_equality(places.to_set(), set_int_range(0, n));
    assert forall|place: int| 0 <= place < n implies places.contains(place) by {
        assert(set_int_range(0, n).contains(place));
        assert(places.to_set().contains(place));
    }
}

/// Two listings of the places of a tally in the order of the summary agree.
proof fn lemma_one_summary_order(one: Seq<int>, other: Seq<int>, tally: Seq<nat>, upto: int)
    requires
        in_summary_order(one, tally),
        in_summary_order(other, tally),
        0 <= upto <= tally.len(),
    ensures
        forall|k: int| 0 <= k < upto ==> one[k] == other[k],
    decreases upto,
{
    if upto > 0 {
        lemma_one_summary_order(one, other, tally, upto - 1);
        let i = upto - 1;
        if one[i] != other[i] {
            lemma_every_place_taken(one, tally);
            lemma_every_place_taken(other, tally);
            assert(0 <= one[i] < tally.len());
            assert(0 <= other[i] < tally.len());
            assert(other.contains(one[i]));
            assert(one.contains(other[i]));
            let there = choose|m: int| 0 <= m < other.len() && other[m] == one[i];
            let here = choose|m: int| 0 <= m < one.len() && one[m] == other[i];
            if there < i {
                assert(one[there] == other[there]);
                assert(precedes(tally, one[there], one[i]));
            } else {
                assert(precedes(tally, other[i], other[there]));
            }
            if here < i {
                assert(one[here] == other[here]);
                assert(precedes(tally, other[here], other[i]));
            } else {
                assert(precedes(tally, one[i], one[here]));
            }
        }
    }
}

/// The count of each cell of `first_seen`, by its place.
spec fn summary_tally(records: Seq<Seq<HexCell>>, restriction: Option<Set<Seq<char>>>) -> Seq<nat> {
    let listed = first_seen(records, restriction);
    Seq::new(listed.len(), |place: int| touch_count(records, restriction, listed[place].id@))
}

/// The place in `first_seen` of the cell of each row.
spec fn summary_places(
    rows: Seq<SummaryRow>,
    records: Seq<Seq<HexCell>>,
    restriction: Option<Set<Seq<char>>>,
) -> Seq<int> {
    let listed = first_seen(records, restriction);
    Seq::new(listed.len(), |k: int| rank_of(listed, rows[k].hex_id@))
}

/// The rows of a summary name the places of the tally in the order of the
/// summary, and each row names the cell at its place.
proof fn lemma_summary_places(
    rows: Seq<SummaryRow>,
    records: Seq<Seq<HexCell>>,
    restriction: Option<Set<Seq<char>>>,
    with_geometry: bool,
)
    requires
        is_summary(rows, records, restriction, with_geometry),
    ensures
        in_summary_order(
            summary_places(rows, records, restriction),
            summary_tally(records, restriction),
        ),
        forall|k: int|
            0 <= k < rows.len() ==> first_seen(records, restriction)[#[trigger] summary_places(
                rows,
                records,
                restriction,
            )[k]].id@ == rows[k].hex_id@,
{
    let listed = first_seen(records, restriction);
    let n = listed.len();
    let tally = summary_tally(records, restriction);
    let places = summary_places(rows, records, restriction);
    assert forall|k: int| 0 <= k < n implies 0 <= #[trigger] places[k] < n && listed[places[k]].id@
        == rows[k].hex_id@ by {
        assert(has_id(listed, rows[k].hex_id@));
    }
    assert forall|i: int, j: int| 0 <= i < j < n implies precedes(
        tally,
        #[trigger] places[i],
        #[trigger] places[j],
    ) by {
        assert(ordered_before(rows[i], rows[j], listed));
        assert(listed[places[i]].id@ == rows[i].hex_id@);
        assert(listed[places[j]].id@ == rows[j].hex_id@);
    }
}

/// The summary is one: two tables that are each the summary of the same
/// records under the same restriction name the same cells with the same
/// counts in the same order.
pub proof fn lemma_summary_unique(
    one: Seq<SummaryRow>,
    other: Seq<SummaryRow>,
    records: Seq<Seq<HexCell>>,
    restriction: Option<Set<Seq<char>>>,
    with_geometry: bool,
)
    requires
        is_summary(one, records, restriction, with_geometry),
        is_summary(other, records, restriction, with_geometry),
    ensures
        one.len() == other.len(),
        forall|k: int|
            0 <= k < one.len() ==> {
                &&& (#[trigger] one[k]).hex_id@ == other[k].hex_id@
                &&& one[k].pipe_count == other[k].pipe_count
                &&& one[k].cell == other[k].cell
            },
{
    let listed = first_seen(records, restriction);
    lemma_first_seen(records, restriction);
    let tally = summary_tally(records, restriction);
    let here = summary_places(one, records, restriction);
    let there = summary_places(other, records, restriction);
    lemma_summary_places(one, records, restriction, with_geometry);
    lemma_summary_places(other, records, restriction, with_geometry);
    lemma_one_summary_order(here, there, tally, listed.len() as int);
    assert forall|k: int| 0 <= k < one.len() implies {
        &&& (#[trigger] one[k]).hex_id@ == other[k].hex_id@
        &&& one[k].pipe_count == other[k].pipe_count
        &&& one[k].cell == other[k].cell
    } by {
        assert(here[k] == there[k]);
        assert(listed[here[k]].id@ == one[k].hex_id@);
        assert(listed[there[k]].id@ == other[k].hex_id@);
    }
}

} // verus!

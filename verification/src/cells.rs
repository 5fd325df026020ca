use vstd::prelude::*;

verus! {

/// One cell of the hexagonal grid, as the grid resolver reports it: its
/// identifier, and the zoom level, row and column that place it in the grid.
///
/// Two cells are the same cell where their identifiers are the same.
#[derive(Debug, PartialEq, Eq)]
pub struct HexCell {
    pub id: String,
    pub zoom_level: u8,
    pub row: i64,
    pub col: i64,
}

impl Clone for HexCell {
    fn clone(&self) -> (cell: Self)
        ensures
            cell == *self,
    {
        HexCell { id: self.id.clone(), zoom_level: self.zoom_level, row: self.row, col: self.col }
    }
}

/// The cell lists of several records as plain sequences.
pub open spec fn cell_lists(cells: Seq<Vec<HexCell>>) -> Seq<Seq<HexCell>> {
    cells.map_values(|list: Vec<HexCell>| list@)
}

/// The identifiers of some cells, in their order.
pub open spec fn cell_ids(cells: Seq<HexCell>) -> Seq<Seq<char>> {
    cells.map_values(|cell: HexCell| cell.id@)
}

/// Whether one of `cells` has the identifier `id`.
pub open spec fn has_id(cells: Seq<HexCell>, id: Seq<char>) -> bool {
    exists|i: int| 0 <= i < cells.len() && (#[trigger] cells[i]).id@ == id
}

/// Whether a restriction lets a cell through. No restriction lets every cell
/// through; a set of valid identifiers lets through its members only, so the
/// empty set lets nothing through.
pub open spec fn allows(restriction: Option<Set<Seq<char>>>, id: Seq<char>) -> bool {
    match restriction {
        None => true,
        Some(valid) => valid.contains(id),
    }
}

/// The cells that a restriction lets through, in their order.
pub open spec fn surviving(cells: Seq<HexCell>, restriction: Option<Set<Seq<char>>>) -> Seq<
    HexCell,
> {
    cells.filter(|cell: HexCell| allows(restriction, cell.id@))
}

/// The cells without repeats: of the cells with one identifier the first
/// stays, at the place where it was first met.
pub open spec fn distinct_cells(cells: Seq<HexCell>) -> Seq<HexCell>
    decreases cells.len(),
{
    if cells.len() == 0 {
        Seq::empty()
    } else {
        let before = distinct_cells(cells.drop_last());
        if has_id(before, cells.last().id@) {
            before
        } else {
            before.push(cells.last())
        }
    }
}

/// The cells that one record counts for: those that the restriction lets
/// through, each once, in the order in which they were first met.
pub open spec fn membership(cells: Seq<HexCell>, restriction: Option<Set<Seq<char>>>) -> Seq<
    HexCell,
> {
    distinct_cells(surviving(cells, restriction))
}

/// Whether a record with these cells touches the cell `id` under the
/// restriction.
pub open spec fn touches(
    cells: Seq<HexCell>,
    restriction: Option<Set<Seq<char>>>,
    id: Seq<char>,
) -> bool {
    allows(restriction, id) && has_id(cells, id)
}

/// The cells of all records, record after record.
pub open spec fn all_cells(records: Seq<Seq<HexCell>>) -> Seq<HexCell>
    decreases records.len(),
{
    if records.len() == 0 {
        Seq::empty()
    } else {
        all_cells(records.drop_last()) + records.last()
    }
}

/// The number of records that touch the cell `id`. A record counts once,
/// however often its cells name `id`.
pub open spec fn touch_count(
    records: Seq<Seq<HexCell>>,
    restriction: Option<Set<Seq<char>>>,
    id: Seq<char>,
) -> nat
    decreases records.len(),
{
    if records.len() == 0 {
        0
    } else {
        touch_count(records.drop_last(), restriction, id) + (if touches(
            records.last(),
            restriction,
            id,
        ) {
            1nat
        } else {
            0nat
        })
    }
}

/// Every cell that some record touches, once, in the order in which the
/// records and their cells first name it.
pub open spec fn first_seen(records: Seq<Seq<HexCell>>, restriction: Option<Set<Seq<char>>>) -> Seq<
    HexCell,
> {
    distinct_cells(surviving(all_cells(records), restriction))
}

/// The place of the cell `id` among `cells`.
pub open spec fn rank_of(cells: Seq<HexCell>, id: Seq<char>) -> int {
    choose|i: int| 0 <= i < cells.len() && (#[trigger] cells[i]).id@ == id
}

/// `distinct_cells` keeps every identifier, names none twice, and keeps of
/// each identifier the cell that was met first.
pub proof fn lemma_distinct_cells(cells: Seq<HexCell>)
    ensures
        forall|id: Seq<char>|
            #![trigger has_id(distinct_cells(cells), id)]
            #![trigger has_id(cells, id)]
            has_id(distinct_cells(cells), id) <==> has_id(cells, id),
        forall|i: int, j: int|
            0 <= i < j < distinct_cells(cells).len() ==> (#[trigger] distinct_cells(cells)[i]).id@
                != (#[trigger] distinct_cells(cells)[j]).id@,
        forall|k: int|
            0 <= k < distinct_cells(cells).len() ==> exists|i: int|
                {
                    &&& 0 <= i < cells.len()
                    &&& cells[i] == #[trigger] distinct_cells(cells)[k]
                    &&& !has_id(cells.take(i), cells[i].id@)
                },
        distinct_cells(cells).len() <= cells.len(),
    decreases cells.len(),
{
    let distinct = distinct_cells(cells);
    if cells.len() > 0 {
        let front = cells.drop_last();
        let last = cells.last();
        let before = distinct_cells(front);
        lemma_distinct_cells(front);
        assert forall|id: Seq<char>| has_id(distinct, id) <==> has_id(cells, id) by {
            if has_id(cells, id) {
                let i = choose|i: int| 0 <= i < cells.len() && (#[trigger] cells[i]).id@ == id;
                if i < front.len() {
                    assert(front[i].id@ == id);
                    assert(has_id(front, id));
                    let k = choose|k: int| 0 <= k < before.len() && (#[trigger] before[k]).id@ == id;
                    assert(distinct[k].id@ == id);
                } else {
                    if has_id(before, last.id@) {
                    } else {
                        assert(distinct[before.len() as int].id@ == id);
                    }
                }
            }
            if has_id(distinct, id) {
                let k = choose|k: int| 0 <= k < distinct.len() && (#[trigger] distinct[k]).id@ == id;
                if k < before.len() {
                    assert(before[k].id@ == id);
                    assert(has_id(front, id));
                    let i = choose|i: int| 0 <= i < front.len() && (#[trigger] front[i]).id@ == id;
                    assert(cells[i].id@ == id);
                } else {
                    assert(cells[cells.len() - 1].id@ == id);
                }
            }
        }
        assert forall|k: int| 0 <= k < distinct.len() implies exists|i: int|
            {
                &&& 0 <= i < cells.len()
                &&& cells[i] == #[trigger] distinct[k]
                &&& !has_id(cells.take(i), cells[i].id@)
            } by {
            if k < before.len() {
                let i = choose|i: int|
                    {
                        &&& 0 <= i < front.len()
                        &&& front[i] == before[k]
                        &&& !has_id(front.take(i), front[i].id@)
                    };
                assert(front.take(i) =~= cells.take(i));
                assert(cells[i] == distinct[k]);
            } else {
                let i = cells.len() - 1;
                assert(cells.take(i) =~= front);
                assert(cells[i] == distinct[k]);
            }
        }
    }
}

/// A cell survives a restriction where the restriction lets it through.
pub proof fn lemma_surviving(cells: Seq<HexCell>, restriction: Option<Set<Seq<char>>>)
    ensures
        forall|id: Seq<char>|
            #![trigger has_id(surviving(cells, restriction), id)]
            #![trigger touches(cells, restriction, id)]
            has_id(surviving(cells, restriction), id) <==> touches(cells, restriction, id),
        restriction is None ==> surviving(cells, restriction) == cells,
        surviving(cells, restriction).len() <= cells.len(),
    decreases cells.len(),
{
    let keep = |cell: HexCell| allows(restriction, cell.id@);
    let kept = surviving(cells, restriction);
    cells.lemma_filter_len(keep);
    if cells.len() == 0 {
        assert(kept =~= cells);
    } else {
        let front = cells.drop_last();
        let last = cells.last();
        lemma_surviving(front, restriction);
        assert(cells =~= front.push(last));
        front.lemma_filter_push(last, keep);
        let kept_front = surviving(front, restriction);
        assert forall|id: Seq<char>| has_id(kept, id) <==> touches(cells, restriction, id) by {
            if has_id(kept, id) {
                let k = choose|k: int| 0 <= k < kept.len() && (#[trigger] kept[k]).id@ == id;
                if k < kept_front.len() {
                    assert(kept_front[k].id@ == id);
                    assert(has_id(kept_front, id));
                    let i = choose|i: int| 0 <= i < front.len() && (#[trigger] front[i]).id@ == id;
                    assert(cells[i].id@ == id);
                } else {
                    assert(cells[cells.len() - 1].id@ == id);
                }
            }
            if touches(cells, restriction, id) {
                let i = choose|i: int| 0 <= i < cells.len() && (#[trigger] cells[i]).id@ == id;
                if i < front.len() {
                    assert(front[i].id@ == id);
                    assert(touches(front, restriction, id));
                    let k = choose|k: int|
                        0 <= k < kept_front.len() && (#[trigger] kept_front[k]).id@ == id;
                    assert(kept[k].id@ == id);
                } else {
                    assert(kept[kept.len() - 1].id@ == id);
                }
            }
        }
        if restriction is None {
            assert(kept =~= cells);
        }
    }
}

/// The cells that a record counts for are its cells that the restriction lets
/// through: `membership` names each such cell, once, and no other.
pub proof fn lemma_membership(cells: Seq<HexCell>, restriction: Option<Set<Seq<char>>>)
    ensures
        forall|id: Seq<char>|
            #![trigger has_id(membership(cells, restriction), id)]
            #![trigger touches(cells, restriction, id)]
            has_id(membership(cells, restriction), id) <==> touches(cells, restriction, id),
        forall|i: int, j: int|
            0 <= i < j < membership(cells, restriction).len() ==> (#[trigger] membership(
                cells,
                restriction,
            )[i]).id@ != (#[trigger] membership(cells, restriction)[j]).id@,
        membership(cells, restriction).len() <= cells.len(),
{
    lemma_surviving(cells, restriction);
    lemma_distinct_cells(surviving(cells, restriction));
}


/// A list names an identifier once one more cell is added where it named it
/// before or the new cell has it.
pub proof fn lemma_has_id_push(cells: Seq<HexCell>, cell: HexCell, id: Seq<char>)
    ensures
        has_id(cells.push(cell), id) <==> has_id(cells, id) || cell.id@ == id,
{
    let longer = cells.push(cell);
    if has_id(cells, id) {
        let i = choose|i: int| 0 <= i < cells.len() && (#[trigger] cells[i]).id@ == id;
        assert(longer[i].id@ == id);
    }
    if cell.id@ == id {
        assert(longer[cells.len() as int].id@ == id);
    }
    if has_id(longer, id) {
        let i = choose|i: int| 0 <= i < longer.len() && (#[trigger] longer[i]).id@ == id;
        if i < cells.len() {
            assert(cells[i].id@ == id);
        }
    }
}

/// Two lists together name an identifier where one of them names it.
pub proof fn lemma_has_id_concat(a: Seq<HexCell>, b: Seq<HexCell>, id: Seq<char>)
    ensures
        has_id(a + b, id) <==> has_id(a, id) || has_id(b, id),
{
    let whole = a + b;
    if has_id(a, id) {
        let i = choose|i: int| 0 <= i < a.len() && (#[trigger] a[i]).id@ == id;
        assert(whole[i].id@ == id);
    }
    if has_id(b, id) {
        let i = choose|i: int| 0 <= i < b.len() && (#[trigger] b[i]).id@ == id;
        assert(whole[a.len() + i].id@ == id);
    }
    if has_id(whole, id) {
        let i = choose|i: int| 0 <= i < whole.len() && (#[trigger] whole[i]).id@ == id;
        if i < a.len() {
            assert(a[i].id@ == id);
        } else {
            assert(b[i - a.len()].id@ == id);
        }
    }
}

/// One more cell: what survives and what is distinct grows by that cell or
/// stays.
pub proof fn lemma_one_more_cell(
    cells: Seq<HexCell>,
    cell: HexCell,
    restriction: Option<Set<Seq<char>>>,
)
    ensures
        surviving(cells.push(cell), restriction) == if allows(restriction, cell.id@) {
            surviving(cells, restriction).push(cell)
        } else {
            surviving(cells, restriction)
        },
        distinct_cells(cells.push(cell)) == if has_id(distinct_cells(cells), cell.id@) {
            distinct_cells(cells)
        } else {
            distinct_cells(cells).push(cell)
        },
{
    let keep = |c: HexCell| allows(restriction, c.id@);
    cells.lemma_filter_push(cell, keep);
    assert(cells.push(cell).drop_last() =~= cells);
}

/// The cells of the first records are a part of the cells of all records:
/// what some record touches, the records together touch.
pub proof fn lemma_all_cells(records: Seq<Seq<HexCell>>)
    ensures
        forall|id: Seq<char>|
            #![trigger has_id(all_cells(records), id)]
            has_id(all_cells(records), id) <==> exists|r: int|
                0 <= r < records.len() && has_id(#[trigger] records[r], id),
    decreases records.len(),
{
    if records.len() > 0 {
        let front = records.drop_last();
        let last = records.last();
        let whole = all_cells(records);
        lemma_all_cells(front);
        assert forall|id: Seq<char>| #![trigger has_id(all_cells(records), id)]
            has_id(whole, id) <==> exists|r: int|
                0 <= r < records.len() && has_id(#[trigger] records[r], id) by {
            if has_id(whole, id) {
                let i = choose|i: int| 0 <= i < whole.len() && (#[trigger] whole[i]).id@ == id;
                if i < all_cells(front).len() {
                    assert(all_cells(front)[i].id@ == id);
                    assert(has_id(all_cells(front), id));
                    let r = choose|r: int| 0 <= r < front.len() && has_id(#[trigger] front[r], id);
                    assert(has_id(records[r], id));
                } else {
                    assert(last[i - all_cells(front).len()].id@ == id);
                    assert(has_id(records[records.len() - 1], id));
                }
            }
            if exists|r: int| 0 <= r < records.len() && has_id(#[trigger] records[r], id) {
                let r = choose|r: int| 0 <= r < records.len() && has_id(#[trigger] records[r], id);
                if r < front.len() {
                    assert(has_id(front[r], id));
                    assert(has_id(all_cells(front), id));
                    let i = choose|i: int|
                        0 <= i < all_cells(front).len() && (#[trigger] all_cells(front)[i]).id@
                            == id;
                    assert(whole[i].id@ == id);
                } else {
                    let j = choose|j: int| 0 <= j < last.len() && (#[trigger] last[j]).id@ == id;
                    assert(whole[all_cells(front).len() + j].id@ == id);
                }
            }
        }
    }
}

/// No cell is counted more often than there are records, and a cell is
/// counted at all exactly where some record touches it.
pub proof fn lemma_touch_count(
    records: Seq<Seq<HexCell>>,
    restriction: Option<Set<Seq<char>>>,
    id: Seq<char>,
)
    ensures
        touch_count(records, restriction, id) <= records.len(),
        touch_count(records, restriction, id) > 0 <==> touches(all_cells(records), restriction, id),
    decreases records.len(),
{
    lemma_all_cells(records);
    if records.len() > 0 {
        let front = records.drop_last();
        lemma_touch_count(front, restriction, id);
        lemma_all_cells(front);
        if has_id(all_cells(front), id) {
            let r = choose|r: int| 0 <= r < front.len() && has_id(#[trigger] front[r], id);
            assert(has_id(records[r], id));
        }
        if has_id(records.last(), id) {
            assert(has_id(records[records.len() - 1], id));
        }
        if has_id(all_cells(records), id) {
            let r = choose|r: int| 0 <= r < records.len() && has_id(#[trigger] records[r], id);
            if r < front.len() {
                assert(has_id(front[r], id));
            }
        }
    }
}

/// The cells that are touched are those that `first_seen` lists, and it lists
/// none twice.
pub proof fn lemma_first_seen(records: Seq<Seq<HexCell>>, restriction: Option<Set<Seq<char>>>)
    ensures
        forall|id: Seq<char>|
            #![trigger has_id(first_seen(records, restriction), id)]
            has_id(first_seen(records, restriction), id) <==> touch_count(records, restriction, id)
                > 0,
        forall|i: int, j: int|
            0 <= i < j < first_seen(records, restriction).len() ==> (#[trigger] first_seen(
                records,
                restriction,
            )[i]).id@ != (#[trigger] first_seen(records, restriction)[j]).id@,
        forall|k: int|
            0 <= k < first_seen(records, restriction).len() ==> rank_of(
                first_seen(records, restriction),
                (#[trigger] first_seen(records, restriction)[k]).id@,
            ) == k,
{
    let cells = all_cells(records);
    let listed = first_seen(records, restriction);
    lemma_surviving(cells, restriction);
    lemma_distinct_cells(surviving(cells, restriction));
    assert forall|id: Seq<char>| #![trigger has_id(first_seen(records, restriction), id)]
        has_id(listed, id) <==> touch_count(records, restriction, id) > 0 by {
        lemma_touch_count(records, restriction, id);
    }
    assert forall|k: int| 0 <= k < listed.len() implies rank_of(listed, (#[trigger] listed[k]).id@)
        == k by {
        let r = rank_of(listed, listed[k].id@);
        assert(listed[k].id@ == listed[k].id@);
        if r < k {
            assert(listed[r].id@ != listed[k].id@);
        } else if k < r {
            assert(listed[k].id@ != listed[r].id@);
        }
    }
}

/// Finds the first of the first `upto` cells with the identifier `id`.
pub fn find_cell(cells: &Vec<HexCell>, upto: usize, id: &String) -> (found: Option<usize>)
    requires
        upto <= cells@.len(),
    ensures
        match found {
            Some(k) => k < upto && cells@[k as int].id@ == id@ && !has_id(
                cells@.take(k as int),
                id@,
            ),
            None => !has_id(cells@.take(upto as int), id@),
        },
{
    let mut k: usize = 0;
    while k < upto
        invariant
            k <= upto <= cells@.len(),
            !has_id(cells@.take(k as int), id@),
        decreases upto - k,
    {
        if cells[k].id == *id {
            return Some(k);
        }
        assert forall|i: int| 0 <= i < k + 1 implies (#[trigger] cells@.take(k + 1)[i]).id@
            != id@ by {
            if i < k {
                assert(cells@.take(k as int)[i].id@ != id@);
            }
        }
        k = k + 1;
    }
    None
}

/// Whether one of `ids` is the identifier `id`.
pub open spec fn lists_id(ids: Seq<String>, id: Seq<char>) -> bool {
    exists|i: int| 0 <= i < ids.len() && (#[trigger] ids[i])@ == id
}

/// A set of cell identifiers: the cells that a boundary leaves valid.
#[derive(Debug)]
pub struct CellIdSet {
    ids: Vec<String>,
}

impl View for CellIdSet {
    type V = Set<Seq<char>>;

    closed spec fn view(&self) -> Set<Seq<char>> {
        Set::new(|id: Seq<char>| lists_id(self.ids@, id))
    }
}

impl CellIdSet {
    /// The empty set, which lets no cell through.
    pub fn new() -> (set: Self)
        ensures
            set@ == Set::<Seq<char>>::empty(),
    {
        let set = CellIdSet { ids: Vec::new() };
        assert(set@ =~= Set::<Seq<char>>::empty());
        set
    }

    pub fn contains(&self, id: &String) -> (found: bool)
        ensures
            found == self@.contains(id@),
    {
        let mut i: usize = 0;
        while i < self.ids.len()
            invariant
                i <= self.ids@.len(),
                forall|j: int| 0 <= j < i ==> (#[trigger] self.ids@[j])@ != id@,
            decreases self.ids@.len() - i,
        {
            if self.ids[i] == *id {
                return true;
            }
            i = i + 1;
        }
        false
    }

    /// Adds one identifier.
    pub fn insert(&mut self, id: &String)
        ensures
            final(self)@ == old(self)@.insert(id@),
    {
        if !self.contains(id) {
            self.ids.push(id.clone());
            assert(self.ids@[self.ids@.len() - 1]@ == id@);
            assert forall|other: Seq<char>| self@.contains(other) <==> old(self)@.insert(
                id@,
            ).contains(other) by {
                if old(self)@.contains(other) {
                    let i = choose|i: int|
                        0 <= i < old(self).ids@.len() && (#[trigger] old(self).ids@[i])@ == other;
                    assert(self.ids@[i]@ == other);
                }
            }
        }
        assert(self@ =~= old(self)@.insert(id@));
    }

    /// Adds the identifiers of some cells.
    pub fn insert_cells(&mut self, cells: &Vec<HexCell>)
        ensures
            forall|id: Seq<char>|
                #![trigger final(self)@.contains(id)]
                #![trigger has_id(cells@, id)]
                final(self)@.contains(id) <==> old(self)@.contains(id) || has_id(cells@, id),
    {
        let mut i: usize = 0;
        while i < cells.len()
            invariant
                i <= cells@.len(),
                forall|id: Seq<char>|
                    self@.contains(id) <==> old(self)@.contains(id) || has_id(
                        cells@.take(i as int),
                        id,
                    ),
            decreases cells@.len() - i,
        {
            let ghost before = self@;
            self.insert(&cells[i].id);
            assert forall|id: Seq<char>| self@.contains(id) <==> old(self)@.contains(id) || has_id(
                cells@.take(i + 1),
                id,
            ) by {
                let shorter = cells@.take(i as int);
                let longer = cells@.take(i + 1);
                if has_id(shorter, id) {
                    let j = choose|j: int| 0 <= j < shorter.len() && (#[trigger] shorter[j]).id@ == id;
                    assert(longer[j].id@ == id);
                }
                if has_id(longer, id) {
                    let j = choose|j: int| 0 <= j < longer.len() && (#[trigger] longer[j]).id@ == id;
                    if j < i {
                        assert(shorter[j].id@ == id);
                    }
                }
                if id == cells@[i as int].id@ {
                    assert(longer[i as int].id@ == id);
                }
            }
            i = i + 1;
        }
        assert(cells@.take(cells@.len() as int) =~= cells@);
    }

    /// The identifiers of the set, each once.
    pub fn to_vec(&self) -> (ids: Vec<String>)
        ensures
            forall|id: Seq<char>| self@.contains(id) <==> #[trigger] lists_id(ids@, id),
            forall|i: int, j: int|
                0 <= i < j < ids@.len() ==> (#[trigger] ids@[i])@ != (#[trigger] ids@[j])@,
    {
        let mut out: Vec<String> = Vec::new();
        let mut i: usize = 0;
        while i < self.ids.len()
            invariant
                i <= self.ids@.len(),
                forall|id: Seq<char>|
                    lists_id(self.ids@.take(i as int), id) <==> #[trigger] lists_id(out@, id),
                forall|a: int, b: int|
                    0 <= a < b < out@.len() ==> (#[trigger] out@[a])@ != (#[trigger] out@[b])@,
            decreases self.ids@.len() - i,
        {
            let ghost before = out@;
            let mut known = false;
            let mut k: usize = 0;
            while k < out.len()
                invariant_except_break
                    !known,
                invariant
                    k <= out@.len(),
                    i < self.ids@.len(),
                    forall|j: int| 0 <= j < k ==> (#[trigger] out@[j])@ != self.ids@[i as int]@,
                ensures
                    known <==> lists_id(out@, self.ids@[i as int]@),
                decreases out@.len() - k,
            {
                if out[k] == self.ids[i] {
                    known = true;
                    break ;
                }
                k = k + 1;
            }
            if !known {
                out.push(self.ids[i].clone());
                assert(out@[out@.len() - 1]@ == self.ids@[i as int]@);
            }
            assert forall|id: Seq<char>|
                lists_id(self.ids@.take(i + 1), id) <==> #[trigger] lists_id(out@, id) by {
                let shorter = self.ids@.take(i as int);
                let longer = self.ids@.take(i + 1);
                if lists_id(longer, id) {
                    let j = choose|j: int| 0 <= j < longer.len() && (#[trigger] longer[j])@ == id;
                    if j < i {
                        assert(shorter[j]@ == id);
                        assert(lists_id(before, id));
                        let k = choose|k: int| 0 <= k < before.len() && (#[trigger] before[k])@ == id;
                        assert(out@[k]@ == id);
                    }
                }
                if lists_id(out@, id) {
                    let k = choose|k: int| 0 <= k < out@.len() && (#[trigger] out@[k])@ == id;
                    if k < before.len() {
                        assert(before[k]@ == id);
                        assert(lists_id(before, id));
                        assert(lists_id(shorter, id));
                        let j = choose|j: int| 0 <= j < shorter.len() && (#[trigger] shorter[j])@ == id;
                        assert(longer[j]@ == id);
                    } else {
                        assert(longer[i as int]@ == id);
                    }
                }
            }
            i = i + 1;
        }
        assert(self.ids@.take(self.ids@.len() as int) =~= self.ids@);
        out
    }
}

/// What a restriction is as a plain value: nothing, or the set of the valid
/// identifiers.
pub open spec fn restriction_view(restriction: Option<CellIdSet>) -> Option<Set<Seq<char>>> {
    match restriction {
        None => None,
        Some(valid) => Some(valid@),
    }
}

/// Whether the restriction lets the cell `id` through.
pub fn restriction_allows(restriction: &Option<CellIdSet>, id: &String) -> (allowed: bool)
    ensures
        allowed == allows(restriction_view(*restriction), id@),
{
    match restriction {
        None => true,
        Some(valid) => valid.contains(id),
    }
}

} // verus!

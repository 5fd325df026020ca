use vstd::prelude::*;
use crate::error::InfraHexError;
use crate::geometry::Coord;

verus! {

/// One page as a paginated source answers it: how many records match the query
/// in all, and the records of this page.
#[derive(Debug)]
pub struct ApiResponse<T> {
    pub total_count: u64,
    pub results: Vec<T>,
}

/// The records of one page result: those of a page that arrived, none of a
/// page that failed.
pub open spec fn page_records<T>(page: Result<Vec<T>, InfraHexError>) -> Seq<T> {
    match page {
        Ok(records) => records@,
        Err(_) => Seq::empty(),
    }
}

/// The errors of one page result: none of a page that arrived, one of a page
/// that failed.
pub open spec fn page_errors<T>(page: Result<Vec<T>, InfraHexError>) -> Seq<InfraHexError> {
    match page {
        Ok(_) => Seq::empty(),
        Err(e) => seq![e],
    }
}

/// The records of all pages that arrived, in the order of the pages.
pub open spec fn collected_records<T>(pages: Seq<Result<Vec<T>, InfraHexError>>) -> Seq<T>
    decreases pages.len(),
{
    if pages.len() == 0 {
        Seq::empty()
    } else {
        collected_records(pages.drop_last()) + page_records(pages.last())
    }
}

/// The errors of all pages that failed, in the order of the pages.
pub open spec fn collected_errors<T>(pages: Seq<Result<Vec<T>, InfraHexError>>) -> Seq<
    InfraHexError,
>
    decreases pages.len(),
{
    if pages.len() == 0 {
        Seq::empty()
    } else {
        collected_errors(pages.drop_last()) + page_errors(pages.last())
    }
}

/// The outcome of a retrieval: the records of the pages that arrived and the
/// errors of the pages that did not.
#[derive(Debug)]
pub struct InfraResult<T> {
    pub records: Vec<T>,
    pub errors: Vec<InfraHexError>,
}

impl<T> InfraResult<T> {
    /// An outcome without records and without errors.
    pub fn new() -> (result: Self)
        ensures
            result.records@ == Seq::<T>::empty(),
            result.errors@ == Seq::<InfraHexError>::empty(),
    {
        InfraResult { records: Vec::new(), errors: Vec::new() }
    }

    /// Whether a page failed.
    pub fn has_errors(&self) -> (b: bool)
        ensures
            b == (self.errors@.len() > 0),
    {
        !self.errors.is_empty()
    }

    /// A retrieval is complete when no page failed.
    pub fn is_complete(&self) -> (b: bool)
        ensures
            b == (self.errors@.len() == 0),
    {
        self.errors.is_empty()
    }

    /// Folds one page result into the outcome: the records of a page that
    /// arrived are appended, the error of a page that failed is appended.
    pub fn record_page(&mut self, page: Result<Vec<T>, InfraHexError>)
        ensures
            final(self).records@ == old(self).records@ + page_records(page),
            final(self).errors@ == old(self).errors@ + page_errors(page),
    {
        match page {
            Ok(mut records) => {
                self.records.append(&mut records);
            },
            Err(e) => {
                self.errors.push(e);
            },
        }
    }
}

impl<T> Default for InfraResult<T> {
    fn default() -> (result: Self)
        ensures
            result.records@ == Seq::<T>::empty(),
            result.errors@ == Seq::<InfraHexError>::empty(),
    {
        InfraResult::new()
    }
}


/// The number of records in the pages that arrived.
pub open spec fn arrived_total<T>(pages: Seq<Result<Vec<T>, InfraHexError>>) -> nat
    decreases pages.len(),
{
    if pages.len() == 0 {
        0
    } else {
        arrived_total(pages.drop_last()) + page_records(pages.last()).len()
    }
}

/// Folding pages one after another is folding them all at once: the outcome
/// of `a` followed by `b` is the outcome of `a` extended by that of `b`.
pub proof fn lemma_collected_concat<T>(
    a: Seq<Result<Vec<T>, InfraHexError>>,
    b: Seq<Result<Vec<T>, InfraHexError>>,
)
    ensures
        collected_records(a + b) == collected_records(a) + collected_records(b),
        collected_errors(a + b) == collected_errors(a) + collected_errors(b),
        arrived_total(a + b) == arrived_total(a) + arrived_total(b),
    decreases b.len(),
{
    if b.len() == 0 {
        assert(a + b =~= a);
        assert(collected_records(a) + collected_records(b) =~= collected_records(a));
        assert(collected_errors(a) + collected_errors(b) =~= collected_errors(a));
    } else {
        assert((a + b).drop_last() =~= a + b.drop_last());
        assert((a + b).last() == b.last());
        lemma_collected_concat(a, b.drop_last());
        assert(collected_records(a + b) =~= collected_records(a) + collected_records(b));
        assert(collected_errors(a + b) =~= collected_errors(a) + collected_errors(b));
    }
}

/// The outcome holds one error for each page that failed and the records of
/// the pages that arrived, no more and no fewer.
pub proof fn lemma_collected_totals<T>(pages: Seq<Result<Vec<T>, InfraHexError>>)
    ensures
        collected_records(pages).len() == arrived_total(pages),
        collected_errors(pages).len() == pages.filter(
            |page: Result<Vec<T>, InfraHexError>| page is Err,
        ).len(),
    decreases pages.len(),
{
    let failed = |page: Result<Vec<T>, InfraHexError>| page is Err;
    if pages.len() == 0 {
        assert(pages.filter(failed) =~= Seq::empty());
    } else {
        lemma_collected_totals(pages.drop_last());
        assert(pages =~= pages.drop_last().push(pages.last()));
        pages.drop_last().lemma_filter_push(pages.last(), failed);
    }
}

/// Where one page among many fails, the outcome holds that page's error and
/// no other, and its records are those of the other pages, as if the failed
/// page had not been asked for.
pub proof fn lemma_single_failure<T>(pages: Seq<Result<Vec<T>, InfraHexError>>, failed: int)
    requires
        0 <= failed < pages.len(),
        pages[failed] is Err,
        forall|i: int| 0 <= i < pages.len() && i != failed ==> pages[i] is Ok,
    ensures
        collected_errors(pages) == seq![pages[failed]->Err_0],
        collected_records(pages) == collected_records(pages.remove(failed)),
        collected_records(pages).len() == arrived_total(pages.remove(failed)),
        collected_errors(pages.remove(failed)).len() == 0,
{
    let before = pages.take(failed);
    let one = seq![pages[failed]];
    let behind = pages.skip(failed + 1);
    assert(pages =~= before + one + behind);
    assert(pages.remove(failed) =~= before + behind);
    lemma_collected_concat(before, one);
    lemma_collected_concat(before + one, behind);
    lemma_collected_concat(before, behind);
    lemma_all_arrived(before);
    lemma_all_arrived(behind);
    assert(one.drop_last() =~= Seq::<Result<Vec<T>, InfraHexError>>::empty());
    assert(one.last() == pages[failed]);
    reveal_with_fuel(collected_records, 2);
    reveal_with_fuel(collected_errors, 2);
    assert(collected_records(one) =~= Seq::<T>::empty());
    assert(collected_errors(one) =~= seq![pages[failed]->Err_0]);
    assert(collected_records(pages) =~= collected_records(before + behind));
    assert(collected_errors(pages) =~= seq![pages[failed]->Err_0]);
    lemma_collected_totals(pages.remove(failed));
}

/// Pages that all arrived leave no error.
pub proof fn lemma_all_arrived<T>(pages: Seq<Result<Vec<T>, InfraHexError>>)
    requires
        forall|i: int| 0 <= i < pages.len() ==> pages[i] is Ok,
    ensures
        collected_errors(pages).len() == 0,
    decreases pages.len(),
{
    if pages.len() > 0 {
        lemma_all_arrived(pages.drop_last());
    }
}


/// A point by longitude and latitude.
#[derive(Debug, Clone, Copy, PartialEq)]
pub struct GeoPoint2d<T> {
    pub lon: T,
    pub lat: T,
}

/// A point becomes a coordinate: the longitude is `x`, the latitude is `y`.
impl<T: Copy> From<GeoPoint2d<T>> for Coord<T> {
    fn from(point: GeoPoint2d<T>) -> (coord: Self) {
        Coord { x: point.lon, y: point.lat }
    }
}

impl<T: Copy> vstd::std_specs::convert::FromSpecImpl<GeoPoint2d<T>> for Coord<T> {
    open spec fn obeys_from_spec() -> bool {
        true
    }

    open spec fn from_spec(point: GeoPoint2d<T>) -> Self {
        Coord { x: point.lon, y: point.lat }
    }
}

/// The bounding box of a query: the least and the greatest latitude and
/// longitude.
#[derive(Debug, Clone, Copy, PartialEq)]
pub struct BBox<T> {
    pub min_lat: T,
    pub min_lon: T,
    pub max_lat: T,
    pub max_lon: T,
}

impl<T> BBox<T> {
    pub fn new(min_lat: T, min_lon: T, max_lat: T, max_lon: T) -> (bbox: Self)
        ensures
            bbox.min_lat == min_lat,
            bbox.min_lon == min_lon,
            bbox.max_lat == max_lat,
            bbox.max_lon == max_lon,
    {
        BBox { min_lat, min_lon, max_lat, max_lon }
    }
}

} // verus!

use vstd::prelude::*;
use std::time::Duration;
use crate::error::InfraHexError;
use crate::pagination::{
    ceil_div, fetchable_count, initial_state, lemma_ceil_div_bounds, lemma_page_total,
    opendatasoft_config, planned_queries, FetchAction, FetchPlan, PageQuery, PaginationConfig,
};
use crate::types::{collected_errors, collected_records, ApiResponse, InfraResult};

verus! {

/// Whether `pages` are answers of `fetch_page` to `queries`, one for one.
pub open spec fn pages_answer<T, F: Fn(usize, usize) -> Result<Vec<T>, InfraHexError>>(
    fetch_page: F,
    queries: Seq<PageQuery>,
    pages: Seq<Result<Vec<T>, InfraHexError>>,
) -> bool {
    &&& pages.len() == queries.len()
    &&& forall|i: int|
        0 <= i < queries.len() ==> fetch_page.ensures(
            (#[trigger] queries[i].offset, queries[i].limit),
            pages[i],
        )
}

/// Fetches every page of a retrieval, one after another, and folds the page
/// results into one outcome.
///
/// `fetch_page(offset, limit)` fetches one page; `pause(delay)` waits between
/// two waves. A page that fails leaves its error in the outcome and stops
/// nothing: the pages after it are still fetched. No page is asked for twice.
pub fn fetch_all_pages<T, F, P>(
    total_count: usize,
    config: PaginationConfig,
    fetch_page: F,
    pause: P,
) -> (result: InfraResult<T>) where
    F: Fn(usize, usize) -> Result<Vec<T>, InfraHexError>,
    P: Fn(Duration) -> (),

    requires
        total_count > 0 ==> config.page_size > 0 && config.batch_size > 0,
        forall|i: int|
            0 <= i < planned_queries(total_count, config).len() ==> fetch_page.requires(
                (
                    #[trigger] planned_queries(total_count, config)[i].offset,
                    planned_queries(total_count, config)[i].limit,
                ),
            ),
        pause.requires((config.batch_delay,)),
    ensures
        exists|pages: Seq<Result<Vec<T>, InfraHexError>>|
            {
                &&& #[trigger] pages_answer(
                    fetch_page,
                    planned_queries(total_count, config),
                    pages,
                )
                &&& result.records@ == collected_records(pages)
                &&& result.errors@ == collected_errors(pages)
            },
{
    let ghost all = planned_queries(total_count, config);
    let mut result: InfraResult<T> = InfraResult::new();
    let mut plan = FetchPlan::new(total_count, config);
    let ghost mut pages: Seq<Result<Vec<T>, InfraHexError>> = Seq::empty();
    assert(all.skip(0) =~= all);
    loop
        invariant_except_break
            total_count > 0 ==> config.batch_size > 0,
            plan@.batch_size == config.batch_size,
            plan@.batch_delay == config.batch_delay,
            pause.requires((config.batch_delay,)),
            all == planned_queries(total_count, config),
            forall|i: int|
                0 <= i < all.len() ==> fetch_page.requires((#[trigger] all[i].offset, all[i].limit)),
        invariant
            pages.len() <= all.len(),
            plan@.remaining == all.skip(pages.len() as int),
            forall|i: int|
                0 <= i < pages.len() ==> fetch_page.ensures(
                    (#[trigger] all[i].offset, all[i].limit),
                    pages[i],
                ),
            result.records@ == collected_records(pages),
            result.errors@ == collected_errors(pages),
        ensures
            pages.len() == all.len(),
        decreases plan@.remaining.len(), (if plan@.pause_due { 1nat } else { 0nat }),
    {
        let ghost before = plan@;
        match plan.next_action() {
            FetchAction::Done => {
                break ;
            },
            FetchAction::Pause(delay) => {
                pause(delay);
            },
            FetchAction::FetchWave(wave) => {
                let ghost base = pages.len() as int;
                let mut j: usize = 0;
                assert(all.len() > 0);
                while j < wave.len()
                    invariant
                        0 <= j <= wave@.len(),
                        base + wave@.len() <= all.len(),
                        pages.len() == base + j,
                        forall|k: int| 0 <= k < wave@.len() ==> wave@[k] == all[base + k],
                        forall|i: int|
                            0 <= i < all.len() ==> fetch_page.requires(
                                (#[trigger] all[i].offset, all[i].limit),
                            ),
                        forall|i: int|
                            0 <= i < pages.len() ==> fetch_page.ensures(
                                (#[trigger] all[i].offset, all[i].limit),
                                pages[i],
                            ),
                        result.records@ == collected_records(pages),
                        result.errors@ == collected_errors(pages),
                    decreases wave@.len() - j,
                {
                    let query = wave[j];
                    assert(query == all[base + j]);
                    let page = fetch_page(query.offset, query.limit);
                    proof {
                        let grown = pages.push(page);
                        assert(grown.drop_last() =~= pages);
                        assert(grown.last() == page);
                        pages = grown;
                    }
                    result.record_page(page);
                    j = j + 1;
                }
                assert(plan@.remaining =~= all.skip(pages.len() as int));
            },
        }
    }
    assert(pages_answer(fetch_page, planned_queries(total_count, config), pages));
    result
}


/// The number of records that a counting response reports, as the number of
/// records to fetch.
pub open spec fn reported_total<T>(response: ApiResponse<T>) -> usize {
    response.total_count as usize
}

/// Plans the retrieval of everything that a query matches, from the answer to
/// a first request that asks for the number of matches.
///
/// Where the first request failed, nothing is fetched and the outcome holds
/// its error alone. Else the retrieval is planned for the reported number of
/// records, with the configuration for OpenDataSoft sources; the records of
/// the first answer itself are not used.
pub fn plan_fetch_all<T>(first: Result<ApiResponse<T>, InfraHexError>) -> (start: Result<
    FetchPlan,
    InfraResult<T>,
>)
    ensures
        match first {
            Ok(response) => start matches Ok(plan) && plan@ == initial_state(
                reported_total(response),
                opendatasoft_config(),
            ),
            Err(error) => start matches Err(result) && result.records@ == Seq::<T>::empty()
                && result.errors@ == seq![error],
        },
{
    match first {
        Ok(response) => {
            let total = #[verifier::truncate]
            (response.total_count as usize);
            Ok(FetchPlan::new(total, PaginationConfig::opendatasoft()))
        },
        Err(error) => {
            let mut result: InfraResult<T> = InfraResult::new();
            result.errors.push(error);
            assert(result.errors@ =~= seq![error]);
            Err(result)
        },
    }
}

/// Fetches everything that a query matches, from the answer to a first
/// request that asks for the number of matches: nothing where that request
/// failed, else every page of the reported number of records.
pub fn fetch_all_counted<T, F, P>(
    first: Result<ApiResponse<T>, InfraHexError>,
    fetch_page: F,
    pause: P,
) -> (result: InfraResult<T>) where
    F: Fn(usize, usize) -> Result<Vec<T>, InfraHexError>,
    P: Fn(Duration) -> (),

    requires
        first matches Ok(response) ==> {
            &&& forall|i: int|
                0 <= i < planned_queries(reported_total(response), opendatasoft_config()).len()
                    ==> fetch_page.requires(
                    (
                        #[trigger] planned_queries(
                            reported_total(response),
                            opendatasoft_config(),
                        )[i].offset,
                        planned_queries(reported_total(response), opendatasoft_config())[i].limit,
                    ),
                )
            &&& pause.requires((opendatasoft_config().batch_delay,))
        },
    ensures
        match first {
            Ok(response) => exists|pages: Seq<Result<Vec<T>, InfraHexError>>|
                {
                    &&& #[trigger] pages_answer(
                        fetch_page,
                        planned_queries(reported_total(response), opendatasoft_config()),
                        pages,
                    )
                    &&& result.records@ == collected_records(pages)
                    &&& result.errors@ == collected_errors(pages)
                },
            Err(error) => result.records@ == Seq::<T>::empty() && result.errors@ == seq![error],
        },
{
    match first {
        Ok(response) => {
            let total = #[verifier::truncate]
            (response.total_count as usize);
            let config = PaginationConfig::opendatasoft();
            assert(total == reported_total(response));
            assert(config == opendatasoft_config());
            fetch_all_pages(total, config, fetch_page, pause)
        },
        Err(error) => {
            let mut result: InfraResult<T> = InfraResult::new();
            result.errors.push(error);
            assert(result.errors@ =~= seq![error]);
            result
        },
    }
}


/// A retrieval of no records fetches no page and gives an outcome without
/// records and without errors.
pub proof fn lemma_fetch_nothing<T, F: Fn(usize, usize) -> Result<Vec<T>, InfraHexError>>(
    fetch_page: F,
    config: PaginationConfig,
    pages: Seq<Result<Vec<T>, InfraHexError>>,
)
    requires
        pages_answer(fetch_page, planned_queries(0, config), pages),
    ensures
        pages.len() == 0,
        collected_records(pages) == Seq::<T>::empty(),
        collected_errors(pages) == Seq::<InfraHexError>::empty(),
{
}

/// A retrieval fetches as many pages as the fetchable records fill, the last
/// page counted in full: the fetchable records divided by the page size,
/// rounded up. Records that fit into one page are fetched with one page.
pub proof fn lemma_fetch_page_total<T, F: Fn(usize, usize) -> Result<Vec<T>, InfraHexError>>(
    fetch_page: F,
    total_count: usize,
    config: PaginationConfig,
    pages: Seq<Result<Vec<T>, InfraHexError>>,
)
    requires
        config.page_size > 0,
        pages_answer(fetch_page, planned_queries(total_count, config), pages),
    ensures
        pages.len() == ceil_div(
            fetchable_count(total_count, config.max_offset) as int,
            config.page_size as int,
        ),
        0 < fetchable_count(total_count, config.max_offset) <= config.page_size ==> pages.len()
            == 1,
{
    lemma_page_total(total_count, config);
    let fetchable = fetchable_count(total_count, config.max_offset) as int;
    let size = config.page_size as int;
    if 0 < fetchable <= size {
        assert((1 - 1) * size < fetchable <= 1 * size) by (nonlinear_arith)
            requires
                0 < fetchable <= size,
        ;
        lemma_ceil_div_bounds(fetchable, size, 1);
    }
}

} // verus!

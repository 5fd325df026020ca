use vstd::prelude::*;
use vstd::arithmetic::div_mod::lemma_fundamental_div_mod_converse;
use std::time::Duration;

verus! {

/// The duration that `Duration::from_millis` makes of a number of milliseconds.
pub uninterp spec fn millis_duration(millis: u64) -> Duration;

/// `Duration::from_millis` from std: the result depends on the number of
/// milliseconds alone.
#[verifier::external_body]
fn duration_from_millis(millis: u64) -> (delay: Duration)
    ensures
        delay == millis_duration(millis),
{
    Duration::from_millis(millis)
}

/// How a paginated retrieval is cut into pages and waves.
#[derive(Debug, Clone, Copy)]
pub struct PaginationConfig {
    /// Records per page.
    pub page_size: usize,
    /// Pages that are fetched concurrently in one wave.
    pub batch_size: usize,
    /// Pause between two waves.
    pub batch_delay: Duration,
    /// Ceiling on the pagination offset, where the source has one.
    pub max_offset: Option<usize>,
}

/// The configuration that is used where none is given: pages of 100 records,
/// waves of 100 pages, a tenth of a second between waves, no offset ceiling.
pub open spec fn default_config() -> PaginationConfig {
    PaginationConfig {
        page_size: 100,
        batch_size: 100,
        batch_delay: millis_duration(100),
        max_offset: None,
    }
}

/// The default configuration with the offset ceiling of OpenDataSoft sources.
pub open spec fn opendatasoft_config() -> PaginationConfig {
    PaginationConfig { max_offset: Some(10_000usize), ..default_config() }
}

impl Default for PaginationConfig {
    fn default() -> (config: Self)
        ensures
            config == default_config(),
    {
        PaginationConfig {
            page_size: 100,
            batch_size: 100,
            batch_delay: duration_from_millis(100),
            max_offset: None,
        }
    }
}

impl PaginationConfig {
    /// The defaults, with the offset ceiling of 10,000 that OpenDataSoft
    /// sources impose.
    pub fn opendatasoft() -> (config: Self)
        ensures
            config == opendatasoft_config(),
    {
        PaginationConfig {
            page_size: 100,
            batch_size: 100,
            batch_delay: duration_from_millis(100),
            max_offset: Some(10_000),
        }
    }

    /// The configuration with another page size.
    pub fn with_page_size(self, size: usize) -> (config: Self)
        ensures
            config == (PaginationConfig { page_size: size, ..self }),
    {
        PaginationConfig { page_size: size, ..self }
    }

    /// The configuration with another number of pages in a wave.
    pub fn with_batch_size(self, size: usize) -> (config: Self)
        ensures
            config == (PaginationConfig { batch_size: size, ..self }),
    {
        PaginationConfig { batch_size: size, ..self }
    }

    /// The configuration with another pause between waves.
    pub fn with_batch_delay(self, delay: Duration) -> (config: Self)
        ensures
            config == (PaginationConfig { batch_delay: delay, ..self }),
    {
        PaginationConfig { batch_delay: delay, ..self }
    }

    /// The configuration with an offset ceiling.
    pub fn with_max_offset(self, max: usize) -> (config: Self)
        ensures
            config == (PaginationConfig { max_offset: Some(max), ..self }),
    {
        PaginationConfig { max_offset: Some(max), ..self }
    }
}

/// One page of a paginated source: where it starts and how many records it
/// may hold.
#[derive(Debug, Clone, Copy, PartialEq, Eq, Structural)]
pub struct PageQuery {
    pub offset: usize,
    pub limit: usize,
}

/// How many records can be fetched: all of them, or as many as the offset
/// ceiling lets through.
pub open spec fn fetchable_count(total_count: usize, max_offset: Option<usize>) -> usize {
    match max_offset {
        Some(max) => if total_count <= max { total_count } else { max },
        None => total_count,
    }
}

/// `n / d`, rounded up.
pub open spec fn ceil_div(n: int, d: int) -> int
    recommends
        n >= 0,
        d > 0,
{
    (n + d - 1) / d
}

/// The number of pages that cover `fetchable` records.
pub open spec fn page_count(fetchable: usize, page_size: usize) -> nat
    recommends
        page_size > 0,
{
    ceil_div(fetchable as int, page_size as int) as nat
}

/// The offsets `0, page_size, 2 * page_size, ...` below `fetchable`.
pub open spec fn page_offsets(fetchable: usize, page_size: usize) -> Seq<usize>
    recommends
        page_size > 0,
{
    Seq::new(page_count(fetchable, page_size), |i: int| (i * page_size) as usize)
}

/// Every page of a retrieval, in the order of the offsets. Each page asks for
/// `page_size` records.
pub open spec fn page_queries(total_count: usize, config: PaginationConfig) -> Seq<PageQuery>
    recommends
        config.page_size > 0,
{
    page_offsets(fetchable_count(total_count, config.max_offset), config.page_size).map(
        |i: int, offset: usize| PageQuery { offset, limit: config.page_size },
    )
}

/// `ceil_div(n, d)` is the one `q` with `(q - 1) * d < n <= q * d`.
pub proof fn lemma_ceil_div_bounds(n: int, d: int, q: int)
    requires
        d > 0,
        (q - 1) * d < n <= q * d,
    ensures
        ceil_div(n, d) == q,
{
    let r = n + d - 1 - q * d;
    assert((q - 1) * d == q * d - d) by (nonlinear_arith);
    lemma_fundamental_div_mod_converse(n + d - 1, d, q, r);
}

/// Nothing divided by anything is nothing.
pub proof fn lemma_ceil_div_zero(d: int)
    requires
        d > 0,
    ensures
        ceil_div(0, d) == 0,
{
    vstd::arithmetic::div_mod::lemma_basic_div(d - 1, d);
}

/// Computes the page offsets of a retrieval of `fetchable` records.
pub fn compute_page_offsets(fetchable: usize, page_size: usize) -> (offsets: Vec<usize>)
    requires
        page_size > 0,
    ensures
        offsets@ == page_offsets(fetchable, page_size),
{
    let mut offsets: Vec<usize> = Vec::new();
    if fetchable == 0 {
        proof {
            lemma_ceil_div_zero(page_size as int);
        }
        assert(offsets@ =~= page_offsets(fetchable, page_size));
        return offsets;
    }
    let mut offset: usize = 0;
    assert(0 * page_size == 0) by (nonlinear_arith);
    loop
        invariant_except_break
            page_size > 0,
            offset < fetchable,
            offset == offsets@.len() * page_size,
            forall|i: int| 0 <= i < offsets@.len() ==> offsets@[i] == i * page_size,
        ensures
            offsets@.len() == page_count(fetchable, page_size),
            forall|i: int| 0 <= i < offsets@.len() ==> offsets@[i] == i * page_size,
        decreases fetchable - offset,
    {
        offsets.push(offset);
        if fetchable - offset <= page_size {
            proof {
                let q = offsets@.len() as int;
                assert((q - 1) * page_size == offset);
                assert(q * page_size == offset + page_size) by (nonlinear_arith)
                    requires
                        (q - 1) * page_size == offset,
                ;
                lemma_ceil_div_bounds(fetchable as int, page_size as int, q);
            }
            break ;
        }
        proof {
            let q = offsets@.len() as int;
            assert(q * page_size == offset + page_size) by (nonlinear_arith)
                requires
                    (q - 1) * page_size == offset,
            ;
        }
        offset = offset + page_size;
    }
    assert(offsets@ =~= page_offsets(fetchable, page_size));
    offsets
}


/// The pages that a retrieval asks for: none when nothing matches, else every
/// page of `page_queries`.
pub open spec fn planned_queries(total_count: usize, config: PaginationConfig) -> Seq<PageQuery> {
    if total_count == 0 {
        Seq::empty()
    } else {
        page_queries(total_count, config)
    }
}

/// What the driver of a retrieval is told to do.
#[derive(Debug)]
pub enum FetchAction {
    /// Fetch these pages concurrently and wait for every one of them.
    FetchWave(Vec<PageQuery>),
    /// Wait this long before asking for the next action.
    Pause(Duration),
    /// Nothing is left to fetch.
    Done,
}

/// A `FetchAction` as a plain value.
pub enum PlannedAction {
    FetchWave(Seq<PageQuery>),
    Pause(Duration),
    Done,
}

impl View for FetchAction {
    type V = PlannedAction;

    open spec fn view(&self) -> PlannedAction {
        match self {
            FetchAction::FetchWave(queries) => PlannedAction::FetchWave(queries@),
            FetchAction::Pause(delay) => PlannedAction::Pause(*delay),
            FetchAction::Done => PlannedAction::Done,
        }
    }
}

/// The state of a retrieval as a plain value: the pages not yet handed out,
/// whether a pause comes before the next wave, and the two settings that the
/// waves depend on.
pub struct PlanState {
    pub remaining: Seq<PageQuery>,
    pub pause_due: bool,
    pub batch_size: nat,
    pub batch_delay: Duration,
}

impl PlanState {
    /// The next wave: the first `batch_size` of the remaining pages, or all of
    /// them where fewer are left.
    pub open spec fn next_wave(self) -> Seq<PageQuery> {
        if self.remaining.len() <= self.batch_size {
            self.remaining
        } else {
            self.remaining.take(self.batch_size as int)
        }
    }

    /// The action that this state calls for.
    pub open spec fn action(self) -> PlannedAction {
        if self.remaining.len() == 0 {
            PlannedAction::Done
        } else if self.pause_due {
            PlannedAction::Pause(self.batch_delay)
        } else {
            PlannedAction::FetchWave(self.next_wave())
        }
    }

    /// The state after that action: a wave takes its pages off the remaining
    /// ones and calls for a pause if any are left; a pause clears the call.
    pub open spec fn after(self) -> PlanState {
        if self.remaining.len() == 0 || self.pause_due {
            PlanState { pause_due: false, ..self }
        } else {
            let rest = self.remaining.skip(self.next_wave().len() as int);
            PlanState { remaining: rest, pause_due: rest.len() > 0, ..self }
        }
    }

    /// Every action from this state on, up to and without the final `Done`.
    pub open spec fn run(self) -> Seq<PlannedAction>
        decreases self.remaining.len(), (if self.pause_due { 1nat } else { 0nat }),
    {
        if self.remaining.len() == 0 || self.batch_size == 0 {
            Seq::empty()
        } else {
            seq![self.action()] + self.after().run()
        }
    }
}

/// The pages that a sequence of actions asks for, in order.
pub open spec fn issued_queries(actions: Seq<PlannedAction>) -> Seq<PageQuery>
    decreases actions.len(),
{
    if actions.len() == 0 {
        Seq::empty()
    } else {
        let rest = issued_queries(actions.drop_first());
        match actions.first() {
            PlannedAction::FetchWave(queries) => queries + rest,
            _ => rest,
        }
    }
}

/// The number of waves in a sequence of actions.
pub open spec fn wave_total(actions: Seq<PlannedAction>) -> nat
    decreases actions.len(),
{
    if actions.len() == 0 {
        0
    } else {
        wave_total(actions.drop_first()) + (if actions.first() is FetchWave { 1nat } else { 0nat })
    }
}

/// The number of pauses in a sequence of actions.
pub open spec fn pause_total(actions: Seq<PlannedAction>) -> nat
    decreases actions.len(),
{
    if actions.len() == 0 {
        0
    } else {
        pause_total(actions.drop_first()) + (if actions.first() is Pause { 1nat } else { 0nat })
    }
}

/// The state in which a retrieval of `total_count` records starts.
pub open spec fn initial_state(total_count: usize, config: PaginationConfig) -> PlanState {
    PlanState {
        remaining: planned_queries(total_count, config),
        pause_due: false,
        batch_size: config.batch_size as nat,
        batch_delay: config.batch_delay,
    }
}

/// The decisions of a paginated retrieval, one action at a time.
///
/// The driver asks for the next action, performs it (fetches a wave of pages,
/// or waits), folds the page results into an `InfraResult`, and asks again
/// until the plan says `Done`.
#[derive(Debug)]
pub struct FetchPlan {
    offsets: Vec<usize>,
    next: usize,
    page_size: usize,
    batch_size: usize,
    batch_delay: Duration,
    pause_due: bool,
}

impl View for FetchPlan {
    type V = PlanState;

    closed spec fn view(&self) -> PlanState {
        PlanState {
            remaining: self.offsets@.skip(self.next as int).map(
                |i: int, offset: usize| PageQuery { offset, limit: self.page_size },
            ),
            pause_due: self.pause_due,
            batch_size: self.batch_size as nat,
            batch_delay: self.batch_delay,
        }
    }
}

impl FetchPlan {
    #[verifier::type_invariant]
    spec fn well_formed(self) -> bool {
        &&& self.next <= self.offsets@.len()
        &&& self.offsets@.len() > 0 ==> self.batch_size > 0
        &&& self.pause_due ==> self.next < self.offsets@.len()
    }

    /// Plans the retrieval of `total_count` records.
    ///
    /// With records to fetch, the page size and the batch size must not be
    /// zero: no sequence of pages covers the records otherwise.
    pub fn new(total_count: usize, config: PaginationConfig) -> (plan: Self)
        requires
            total_count > 0 ==> config.page_size > 0 && config.batch_size > 0,
        ensures
            plan@ == initial_state(total_count, config),
    {
        let offsets = if total_count == 0 {
            Vec::new()
        } else {
            let fetchable = match config.max_offset {
                Some(max) => if total_count <= max { total_count } else { max },
                None => total_count,
            };
            compute_page_offsets(fetchable, config.page_size)
        };
        let plan = FetchPlan {
            offsets,
            next: 0,
            page_size: config.page_size,
            batch_size: config.batch_size,
            batch_delay: config.batch_delay,
            pause_due: false,
        };
        assert(plan@.remaining =~= planned_queries(total_count, config));
        plan
    }

    /// Whether every page has been handed out.
    pub fn is_done(&self) -> (done: bool)
        ensures
            done == (self@.remaining.len() == 0),
    {
        proof {
            use_type_invariant(self);
        }
        self.next >= self.offsets.len()
    }

    /// The number of pages not yet handed out.
    pub fn pages_left(&self) -> (left: usize)
        ensures
            left == self@.remaining.len(),
    {
        proof {
            use_type_invariant(self);
        }
        self.offsets.len() - self.next
    }

    /// Hands out the next action and moves the plan past it.
    pub fn next_action(&mut self) -> (action: FetchAction)
        ensures
            action@ == old(self)@.action(),
            final(self)@ == old(self)@.after(),
    {
        proof {
            use_type_invariant(&*self);
        }
        let len = self.offsets.len();
        if self.next >= len {
            assert(self@.remaining.len() == 0);
            assert(!self.pause_due);
            assert(self@ == old(self)@.after());
            return FetchAction::Done;
        }
        if self.pause_due {
            self.pause_due = false;
            assert(self@ == old(self)@.after());
            return FetchAction::Pause(self.batch_delay);
        }
        let left = len - self.next;
        let count = if left <= self.batch_size { left } else { self.batch_size };
        let start = self.next;
        let end = start + count;
        let mut wave: Vec<PageQuery> = Vec::new();
        let mut i = start;
        while i < end
            invariant
                start <= i <= end <= len,
                len == self.offsets@.len(),
                start == self.next,
                wave@.len() == i - start,
                forall|k: int|
                    0 <= k < wave@.len() ==> wave@[k] == (PageQuery {
                        offset: self.offsets@[start + k],
                        limit: self.page_size,
                    }),
            decreases end - i,
        {
            wave.push(PageQuery { offset: self.offsets[i], limit: self.page_size });
            i = i + 1;
        }
        assert(wave@ =~= old(self)@.next_wave());
        self.next = end;
        self.pause_due = end < len;
        assert(self@.remaining =~= old(self)@.remaining.skip(count as int));
        assert(self@ == old(self)@.after());
        FetchAction::FetchWave(wave)
    }
}


/// For a positive `n`, `ceil_div(n, d)` is the least `q` with `n <= q * d`;
/// for zero it is zero.
pub proof fn lemma_ceil_div_least(n: int, d: int)
    requires
        n >= 0,
        d > 0,
    ensures
        n == 0 ==> ceil_div(n, d) == 0,
        n > 0 ==> (ceil_div(n, d) - 1) * d < n <= ceil_div(n, d) * d,
        ceil_div(n, d) >= 0,
{
    let q = (n + d - 1) / d;
    vstd::arithmetic::div_mod::lemma_fundamental_div_mod(n + d - 1, d);
    vstd::arithmetic::div_mod::lemma_mod_bound(n + d - 1, d);
    assert(d * q == q * d) by (nonlinear_arith);
    assert((q - 1) * d == q * d - d) by (nonlinear_arith);
    if n == 0 {
        vstd::arithmetic::div_mod::lemma_basic_div(d - 1, d);
    }
    if q < 0 {
        assert(q * d <= -d) by (nonlinear_arith)
            requires
                q <= -1,
                d > 0,
        ;
    }
}

/// A retrieval of no records asks for no page: its first action is `Done`.
pub proof fn lemma_nothing_to_fetch(config: PaginationConfig)
    ensures
        planned_queries(0, config).len() == 0,
        initial_state(0, config).action() == PlannedAction::Done,
        initial_state(0, config).run().len() == 0,
{
}

/// The number of pages asked for is the number of fetchable records divided by
/// the page size, rounded up; the `i`-th page starts at `i * page_size` and
/// asks for `page_size` records.
pub proof fn lemma_page_total(total_count: usize, config: PaginationConfig)
    requires
        config.page_size > 0,
    ensures
        planned_queries(total_count, config).len() == ceil_div(
            fetchable_count(total_count, config.max_offset) as int,
            config.page_size as int,
        ),
        forall|i: int|
            0 <= i < planned_queries(total_count, config).len() ==> {
                &&& (#[trigger] planned_queries(total_count, config)[i]).offset == i
                    * config.page_size
                &&& planned_queries(total_count, config)[i].offset < fetchable_count(
                    total_count,
                    config.max_offset,
                )
                &&& planned_queries(total_count, config)[i].limit == config.page_size
            },
{
    let fetchable = fetchable_count(total_count, config.max_offset);
    let d = config.page_size as int;
    lemma_ceil_div_least(fetchable as int, d);
    let q = ceil_div(fetchable as int, d);
    assert forall|i: int| 0 <= i < planned_queries(total_count, config).len() implies {
        &&& (#[trigger] planned_queries(total_count, config)[i]).offset == i * config.page_size
        &&& planned_queries(total_count, config)[i].offset < fetchable
        &&& planned_queries(total_count, config)[i].limit == config.page_size
    } by {
        assert(i * d <= (q - 1) * d) by (nonlinear_arith)
            requires
                0 <= i <= q - 1,
                d > 0,
        ;
        assert(0 <= i * d) by (nonlinear_arith)
            requires
                0 <= i,
                d > 0,
        ;
    }
}

/// Records that fit into one page are fetched with one page, which starts at
/// offset zero.
pub proof fn lemma_single_page(total_count: usize, config: PaginationConfig)
    requires
        0 < total_count <= config.page_size,
        config.max_offset != Some(0usize),
    ensures
        planned_queries(total_count, config) == seq![
            PageQuery { offset: 0, limit: config.page_size },
        ],
{
    let fetchable = fetchable_count(total_count, config.max_offset);
    let d = config.page_size as int;
    assert((1 - 1) * d < fetchable <= 1 * d) by (nonlinear_arith)
        requires
            0 < fetchable <= d,
    ;
    lemma_ceil_div_bounds(fetchable as int, d, 1);
    assert(0 * d == 0) by (nonlinear_arith);
    assert(planned_queries(total_count, config) =~= seq![
        PageQuery { offset: 0, limit: config.page_size },
    ]);
}

/// The waves of a run hand out exactly the remaining pages, each once and in
/// order.
pub proof fn lemma_run_issues_remaining(state: PlanState)
    requires
        state.batch_size > 0,
    ensures
        issued_queries(state.run()) == state.remaining,
    decreases state.remaining.len(), (if state.pause_due { 1nat } else { 0nat }),
{
    if state.remaining.len() == 0 {
        assert(issued_queries(state.run()) =~= state.remaining);
    } else {
        let run = state.run();
        assert(run.first() == state.action());
        assert(run.drop_first() =~= state.after().run());
        lemma_run_issues_remaining(state.after());
        if !state.pause_due {
            let wave = state.next_wave();
            assert(wave + state.remaining.skip(wave.len() as int) =~= state.remaining);
        }
    }
}

/// A run that starts without a pending pause has one wave for every
/// `batch_size` remaining pages, rounded up.
pub proof fn lemma_run_wave_total(state: PlanState)
    requires
        state.batch_size > 0,
    ensures
        wave_total(state.run()) == ceil_div(state.remaining.len() as int, state.batch_size as int),
    decreases state.remaining.len(), (if state.pause_due { 1nat } else { 0nat }),
{
    let n = state.remaining.len() as int;
    let b = state.batch_size as int;
    lemma_ceil_div_least(n, b);
    if n > 0 {
        let run = state.run();
        assert(run.first() == state.action());
        assert(run.drop_first() =~= state.after().run());
        lemma_run_wave_total(state.after());
        if !state.pause_due {
            if n <= b {
                assert((1 - 1) * b < n <= 1 * b) by (nonlinear_arith)
                    requires
                        0 < n <= b,
                ;
                lemma_ceil_div_bounds(n, b, 1);
                lemma_ceil_div_least(0, b);
            } else {
                let q = ceil_div(n - b, b);
                lemma_ceil_div_least(n - b, b);
                assert(((q + 1) - 1) * b < n <= (q + 1) * b) by (nonlinear_arith)
                    requires
                        (q - 1) * b < n - b <= q * b,
                ;
                lemma_ceil_div_bounds(n, b, q + 1);
            }
        }
    }
}

/// Pauses stand between waves and nowhere else: a run has one pause fewer than
/// waves, or as many where it starts with a pending pause, and it ends with a
/// wave.
pub proof fn lemma_run_pauses_between_waves(state: PlanState)
    requires
        state.batch_size > 0,
    ensures
        state.remaining.len() == 0 ==> state.run().len() == 0,
        state.remaining.len() > 0 ==> state.run().len() > 0 && state.run().last() is FetchWave,
        state.remaining.len() > 0 && state.pause_due ==> pause_total(state.run()) == wave_total(
            state.run(),
        ),
        state.remaining.len() > 0 && !state.pause_due ==> pause_total(state.run()) + 1
            == wave_total(state.run()),
    decreases state.remaining.len(), (if state.pause_due { 1nat } else { 0nat }),
{
    if state.remaining.len() > 0 {
        let run = state.run();
        let rest = state.after().run();
        assert(run.first() == state.action());
        assert(run.drop_first() =~= rest);
        lemma_run_pauses_between_waves(state.after());
        assert(wave_total(run) == wave_total(rest) + (if run.first() is FetchWave {
            1nat
        } else {
            0nat
        }));
        assert(pause_total(run) == pause_total(rest) + (if run.first() is Pause {
            1nat
        } else {
            0nat
        }));
        if rest.len() > 0 {
            assert(run.last() == rest.last());
        } else {
            assert(state.after().remaining.len() == 0);
        }
    }
}

/// Every action of a run is a pause of the configured length or a wave of at
/// least one and at most `batch_size` pages.
pub proof fn lemma_run_wave_sizes(state: PlanState, i: int)
    requires
        state.batch_size > 0,
        0 <= i < state.run().len(),
    ensures
        match state.run()[i] {
            PlannedAction::FetchWave(queries) => 1 <= queries.len() <= state.batch_size,
            PlannedAction::Pause(delay) => delay == state.batch_delay,
            PlannedAction::Done => false,
        },
    decreases state.remaining.len(), (if state.pause_due { 1nat } else { 0nat }),
{
    if i > 0 {
        assert(state.run()[i] == state.after().run()[i - 1]);
        lemma_run_wave_sizes(state.after(), i - 1);
    }
}

} // verus!

//! Running the downloads of a batch, a bounded number at a time.
//!
//! A `DownloadScheduler` starts nothing itself. It says what to do next:
//! prepare the output directory, start the download of an item, wait for one
//! to return, or stop. Its caller does that and reports back.

use vstd::prelude::*;

verus! {

/// What is known of the output directory.
#[derive(Debug, Clone, Copy, PartialEq, Eq)]
pub enum RootState {
    /// Nobody has looked yet.
    Unknown,
    /// It exists.
    Ready,
    /// It could not be made.
    Failed,
}

/// What the caller does next.
#[derive(Debug, Clone, Copy, PartialEq, Eq)]
pub enum SchedulerAction {
    /// Make the output directory, unless it exists, and report how that went.
    PrepareRoot,
    /// Start the download of the item at this index, and go on.
    Start(usize),
    /// Wait until one of the downloads under way returns, and report it.
    Wait,
    /// Every item has been tried: the batch is done.
    Complete,
    /// There is no output directory: the batch is given up, with no download
    /// started.
    Abort,
}

/// What the caller reports.
#[derive(Debug, Clone, Copy, PartialEq, Eq)]
pub enum SchedulerEvent {
    RootReady,
    RootFailed,
    /// A download has returned, whether it saved its item or failed.
    WorkerReturned,
}

/// A batch in progress.
pub struct SchedulerState {
    /// The number of items.
    pub total: nat,
    /// How many downloads may be under way at once.
    pub limit: nat,
    /// How many downloads have been started: those of the items before this
    /// index.
    pub started: nat,
    /// How many downloads have returned.
    pub returned: nat,
    pub root: RootState,
}

impl SchedulerState {
    /// The state of a batch of `total` items before anything is done.
    pub open spec fn initial(total: nat, limit: nat) -> SchedulerState {
        SchedulerState { total, limit, started: 0, returned: 0, root: RootState::Unknown }
    }

    /// The number of downloads under way.
    pub open spec fn in_flight(self) -> int {
        self.started - self.returned
    }

    /// What holds of a batch at every moment: no more downloads have
    /// returned than were started, none was started that is not of the batch,
    /// none before the output directory was there, and no more are under way
    /// than the limit allows. The items can be counted in a `usize`.
    pub open spec fn inv(self) -> bool {
        &&& self.limit > 0
        &&& self.total <= usize::MAX
        &&& self.returned <= self.started <= self.total
        &&& self.in_flight() <= self.limit
        &&& self.root != RootState::Ready ==> self.started == 0
    }

    /// The decision at this state, and the state it leaves.
    ///
    /// Items are started in their order, as long as the limit allows. When
    /// it does not, or no item is left, the batch waits for the downloads
    /// under way, and is complete when none is.
    pub open spec fn decide(self) -> (SchedulerState, SchedulerAction) {
        match self.root {
            RootState::Unknown => (self, SchedulerAction::PrepareRoot),
            RootState::Failed => (self, SchedulerAction::Abort),
            RootState::Ready => if self.started < self.total && self.in_flight() < self.limit {
                (
                    SchedulerState { started: self.started + 1, ..self },
                    SchedulerAction::Start(self.started as usize),
                )
            } else if self.returned < self.started {
                (self, SchedulerAction::Wait)
            } else {
                (self, SchedulerAction::Complete)
            },
        }
    }

    /// The state after a report. A report on the output directory counts
    /// once; a return counts only while a download is under way.
    pub open spec fn record(self, event: SchedulerEvent) -> SchedulerState {
        match event {
            SchedulerEvent::RootReady => if self.root == RootState::Unknown {
                SchedulerState { root: RootState::Ready, ..self }
            } else {
                self
            },
            SchedulerEvent::RootFailed => if self.root == RootState::Unknown {
                SchedulerState { root: RootState::Failed, ..self }
            } else {
                self
            },
            SchedulerEvent::WorkerReturned => if self.returned < self.started {
                SchedulerState { returned: self.returned + 1, ..self }
            } else {
                self
            },
        }
    }
}

/// Decides which downloads of a batch run, and when the batch is over.
pub struct DownloadScheduler {
    total: usize,
    limit: usize,
    started: usize,
    returned: usize,
    root: RootState,
}

impl View for DownloadScheduler {
    type V = SchedulerState;

    closed spec fn view(&self) -> SchedulerState {
        SchedulerState {
            total: self.total as nat,
            limit: self.limit as nat,
            started: self.started as nat,
            returned: self.returned as nat,
            root: self.root,
        }
    }
}

impl DownloadScheduler {
    #[verifier::type_invariant]
    spec fn well_formed(self) -> bool {
        self@.inv()
    }

    /// A scheduler for `total` items, of which at most `concurrency` are
    /// downloaded at once.
    pub fn new(total: usize, concurrency: usize) -> (s: DownloadScheduler)
        requires
            concurrency > 0,
        ensures
            s@ == SchedulerState::initial(total as nat, concurrency as nat),
            s@.inv(),
    {
        DownloadScheduler {
            total,
            limit: concurrency,
            started: 0,
            returned: 0,
            root: RootState::Unknown,
        }
    }

    /// Says what to do next, and counts a download that it starts.
    pub fn next_action(&mut self) -> (action: SchedulerAction)
        ensures
            (final(self)@, action) == old(self)@.decide(),
            old(self)@.inv(),
            final(self)@.inv(),
    {
        proof {
            use_type_invariant(&*self);
        }
        match self.root {
            RootState::Unknown => SchedulerAction::PrepareRoot,
            RootState::Failed => SchedulerAction::Abort,
            RootState::Ready => {
                if self.started < self.total && self.started - self.returned < self.limit {
                    let index = self.started;
                    self.started = index + 1;
                    SchedulerAction::Start(index)
                } else if self.returned < self.started {
                    SchedulerAction::Wait
                } else {
                    SchedulerAction::Complete
                }
            },
        }
    }

    /// Takes a report of the caller.
    pub fn record(&mut self, event: SchedulerEvent)
        ensures
            final(self)@ == old(self)@.record(event),
            old(self)@.inv(),
            final(self)@.inv(),
    {
        proof {
            use_type_invariant(&*self);
        }
        match event {
            SchedulerEvent::RootReady => {
                if let RootState::Unknown = self.root {
                    self.root = RootState::Ready;
                }
            },
            SchedulerEvent::RootFailed => {
                if let RootState::Unknown = self.root {
                    self.root = RootState::Failed;
                }
            },
            SchedulerEvent::WorkerReturned => {
                if self.returned < self.started {
                    self.returned = self.returned + 1;
                }
            },
        }
    }

    /// The number of downloads under way.
    pub fn in_flight(&self) -> (n: usize)
        ensures
            n == self@.in_flight(),
            self@.inv(),
    {
        proof {
            use_type_invariant(self);
        }
        self.started - self.returned
    }
}

/// One move of a batch: a decision of the scheduler, or a report to it.
pub enum SchedulerStep {
    Decide,
    Report(SchedulerEvent),
}

impl SchedulerState {
    /// The state after one move.
    pub open spec fn step(self, step: SchedulerStep) -> SchedulerState {
        match step {
            SchedulerStep::Decide => self.decide().0,
            SchedulerStep::Report(event) => self.record(event),
        }
    }

    /// The state after a run of moves.
    pub open spec fn run(self, steps: Seq<SchedulerStep>) -> SchedulerState
        decreases steps.len(),
    {
        if steps.len() == 0 {
            self
        } else {
            self.run(steps.drop_last()).step(steps.last())
        }
    }
}

/// The number of rounds that `total` items take when `limit` of them go in
/// one round: `total / limit`, rounded up.
pub open spec fn rounds(total: int, limit: int) -> int
    recommends
        total >= 0,
        limit > 0,
{
    (total + limit - 1) / limit
}

/// The limit on downloads under way, read off the times at which the items
/// are started, where each download takes `duration`: an item is not started
/// before the item `limit` places ahead of it has returned.
pub open spec fn limit_kept(starts: Seq<int>, limit: int, duration: int) -> bool {
    forall|m: int| limit <= m < starts.len() ==> #[trigger] starts[m] >= starts[m - limit] + duration
}

/// No move breaks what holds of a batch.
pub proof fn lemma_step_keeps_inv(s: SchedulerState, step: SchedulerStep)
    requires
        s.inv(),
    ensures
        s.step(step).inv(),
{
}

/// Whatever is decided and reported, in whatever order, the limit holds: at
/// no moment are more downloads under way than it allows, and none is under
/// way before the output directory is there.
pub proof fn lemma_limit_always_holds(total: nat, limit: nat, steps: Seq<SchedulerStep>)
    requires
        limit > 0,
        total <= usize::MAX,
    ensures
        SchedulerState::initial(total, limit).run(steps).inv(),
        SchedulerState::initial(total, limit).run(steps).in_flight() <= limit,
        SchedulerState::initial(total, limit).run(steps).total == total,
        SchedulerState::initial(total, limit).run(steps).limit == limit,
    decreases steps.len(),
{
    if steps.len() > 0 {
        lemma_limit_always_holds(total, limit, steps.drop_last());
        lemma_step_keeps_inv(
            SchedulerState::initial(total, limit).run(steps.drop_last()),
            steps.last(),
        );
    }
}

/// What each decision means. Items are started in their order, one index
/// after the other, and only into a free place. The batch waits only while a
/// download is under way, so it cannot wait for ever. It is complete only
/// when every item has been started and every download has returned,
/// whatever the downloads came to. It is given up only for want of the output
/// directory, before any download was started.
pub proof fn lemma_decisions(s: SchedulerState)
    requires
        s.inv(),
    ensures
        match s.decide().1 {
            SchedulerAction::PrepareRoot => s.root == RootState::Unknown && s.decide().0 == s,
            SchedulerAction::Start(index) => {
                &&& index == s.started
                &&& index < s.total
                &&& s.in_flight() < s.limit
                &&& s.returned + s.limit > index
                &&& s.decide().0.started == s.started + 1
                &&& s.decide().0.in_flight() == s.in_flight() + 1
            },
            SchedulerAction::Wait => s.in_flight() > 0 && s.decide().0 == s,
            SchedulerAction::Complete => {
                &&& s.started == s.total
                &&& s.returned == s.total
                &&& s.decide().0 == s
            },
            SchedulerAction::Abort => s.root == RootState::Failed && s.started == 0,
        },
{
}

/// How a batch comes to its end. Each item is started once and returns
/// once: every start and every return that counts brings the batch one step
/// nearer, and with the output directory there the batch is complete exactly
/// when all of these steps are taken. How a download ended is no part of
/// this: a failed item holds up nothing.
pub proof fn lemma_progress(s: SchedulerState)
    requires
        s.inv(),
    ensures
        s.started + s.returned <= 2 * s.total,
        s.root == RootState::Ready ==> (s.decide().1 == SchedulerAction::Complete <==> s.started
            + s.returned == 2 * s.total),
        s.decide().1 is Start ==> s.decide().0.started + s.decide().0.returned == s.started
            + s.returned + 1,
        s.in_flight() > 0 ==> s.record(SchedulerEvent::WorkerReturned).started + s.record(
            SchedulerEvent::WorkerReturned,
        ).returned == s.started + s.returned + 1,
{
}

/// Item `m` is started no earlier than after one duration for each full
/// round ahead of it.
pub proof fn lemma_start_times(starts: Seq<int>, origin: int, limit: int, duration: int, m: int)
    requires
        limit > 0,
        duration >= 0,
        0 <= m < starts.len(),
        forall|i: int| 0 <= i < starts.len() ==> #[trigger] starts[i] >= origin,
        limit_kept(starts, limit, duration),
    ensures
        starts[m] >= origin + (m / limit) * duration,
    decreases m,
{
    if m < limit {
        assert(m / limit == 0) by (nonlinear_arith)
            requires
                0 <= m < limit,
        ;
        assert((m / limit) * duration == 0) by (nonlinear_arith)
            requires
                m / limit == 0,
        ;
    } else {
        lemma_start_times(starts, origin, limit, duration, m - limit);
        assert(starts[m] >= starts[m - limit] + duration);
        assert((m - limit) / limit == m / limit - 1) by (nonlinear_arith)
            requires
                limit > 0,
                m >= limit,
        ;
        assert((m / limit - 1) * duration + duration == (m / limit) * duration)
            by (nonlinear_arith);
    }
}

/// A batch cannot be faster than its rounds. Where the items are started at
/// the times `starts`, none before `origin`, each download takes `duration`,
/// and the limit is kept, the last download returns no earlier than as many
/// durations after `origin` as the batch has rounds.
pub proof fn lemma_batch_duration(starts: Seq<int>, origin: int, limit: int, duration: int)
    requires
        limit > 0,
        duration >= 0,
        starts.len() > 0,
        forall|m: int| 0 <= m < starts.len() ==> #[trigger] starts[m] >= origin,
        limit_kept(starts, limit, duration),
    ensures
        starts.last() + duration >= origin + rounds(starts.len() as int, limit) * duration,
{
    let n = starts.len() as int;
    lemma_start_times(starts, origin, limit, duration, n - 1);
    assert((n - 1) / limit + 1 == (n + limit - 1) / limit) by (nonlinear_arith)
        requires
            limit > 0,
            n > 0,
    ;
    assert(((n - 1) / limit) * duration + duration == ((n - 1) / limit + 1) * duration)
        by (nonlinear_arith);
}

/// One move of a batch, and the tick of the clock at which it is made.
pub struct TimedStep {
    pub at: int,
    pub step: SchedulerStep,
}

/// The moves of a run on the clock, without their times.
pub open spec fn moves(trace: Seq<TimedStep>) -> Seq<SchedulerStep> {
    trace.map_values(|t: TimedStep| t.step)
}

/// The ticks at which the downloads of a run were started, in the order of
/// the items.
pub open spec fn start_times(init: SchedulerState, trace: Seq<TimedStep>) -> Seq<int>
    decreases trace.len(),
{
    if trace.len() == 0 {
        Seq::empty()
    } else {
        let before = init.run(moves(trace.drop_last()));
        let earlier = start_times(init, trace.drop_last());
        if trace.last().step is Decide && before.decide().1 is Start {
            earlier.push(trace.last().at)
        } else {
            earlier
        }
    }
}

/// The ticks at which the returns of a run were counted, in their order.
pub open spec fn return_times(init: SchedulerState, trace: Seq<TimedStep>) -> Seq<int>
    decreases trace.len(),
{
    if trace.len() == 0 {
        Seq::empty()
    } else {
        let before = init.run(moves(trace.drop_last()));
        let earlier = return_times(init, trace.drop_last());
        if trace.last().step == SchedulerStep::Report(SchedulerEvent::WorkerReturned)
            && before.in_flight() > 0 {
            earlier.push(trace.last().at)
        } else {
            earlier
        }
    }
}

/// Whether a run can have happened on a clock on which every download takes
/// `duration`: the clock does not go back, and a return is counted no
/// earlier than `duration` after the start of the download that returns.
/// Downloads that take equally long return in the order they were started,
/// so the return counted after `r` others is that of item `r`.
pub open spec fn on_the_clock(init: SchedulerState, trace: Seq<TimedStep>, duration: int) -> bool
    decreases trace.len(),
{
    trace.len() > 0 ==> {
        let front = trace.drop_last();
        let before = init.run(moves(front));
        &&& on_the_clock(init, front, duration)
        &&& front.len() > 0 ==> front.last().at <= trace.last().at
        &&& trace.last().step == SchedulerStep::Report(SchedulerEvent::WorkerReturned)
            && before.in_flight() > 0 ==> trace.last().at >= start_times(init, front)[before.returned as int]
            + duration
    }
}

/// What the clock shows of a run: every download started and every return
/// counted has its tick, between the first and the last of the run; a
/// download returns no earlier than `duration` after its start; and an item
/// is not started before the item `limit` places ahead of it has returned.
pub proof fn lemma_timeline(total: nat, limit: nat, duration: int, trace: Seq<TimedStep>)
    requires
        limit > 0,
        total <= usize::MAX,
        on_the_clock(SchedulerState::initial(total, limit), trace, duration),
    ensures
        ({
            let init = SchedulerState::initial(total, limit);
            let s = init.run(moves(trace));
            let st = start_times(init, trace);
            let rt = return_times(init, trace);
            &&& s.inv()
            &&& s.total == total
            &&& s.limit == limit
            &&& st.len() == s.started
            &&& rt.len() == s.returned
            &&& trace.len() > 0 ==> trace.first().at <= trace.last().at
            &&& forall|m: int|
                0 <= m < st.len() ==> trace.first().at <= #[trigger] st[m] <= trace.last().at
            &&& forall|r: int| 0 <= r < rt.len() ==> #[trigger] rt[r] <= trace.last().at
            &&& forall|r: int| 0 <= r < rt.len() ==> #[trigger] rt[r] >= st[r] + duration
            &&& forall|m: int| limit <= m < st.len() ==> #[trigger] st[m] >= rt[m - limit]
        }),
    decreases trace.len(),
{
    let init = SchedulerState::initial(total, limit);
    if trace.len() > 0 {
        let front = trace.drop_last();
        let now = trace.last().at;
        lemma_timeline(total, limit, duration, front);
        assert(moves(trace).drop_last() =~= moves(front));
        let before = init.run(moves(front));
        let s = init.run(moves(trace));
        assert(s == before.step(trace.last().step));
        lemma_step_keeps_inv(before, trace.last().step);
        let st_f = start_times(init, front);
        let rt_f = return_times(init, front);
        let st = start_times(init, trace);
        let rt = return_times(init, trace);
        if front.len() > 0 {
            assert(trace.first() == front.first());
        } else {
            assert(st_f.len() == 0 && rt_f.len() == 0);
        }
        assert forall|m: int| 0 <= m < st.len() implies trace.first().at <= #[trigger] st[m]
            <= now by {
            if m < st_f.len() {
                assert(st[m] == st_f[m]);
            }
        }
        assert forall|r: int| 0 <= r < rt.len() implies #[trigger] rt[r] <= now && rt[r] >= st[r]
            + duration by {
            if r < rt_f.len() {
                assert(rt[r] == rt_f[r]);
                assert(st[r] == st_f[r]);
            }
        }
        assert forall|m: int| limit <= m < st.len() implies #[trigger] st[m] >= rt[m - limit] by {
            if m < st_f.len() {
                assert(st[m] == st_f[m]);
                assert(rt[m - limit] == rt_f[m - limit]);
            } else {
                assert(rt_f[m - limit] <= front.last().at);
                assert(rt[m - limit] == rt_f[m - limit]);
            }
        }
    }
}

/// A batch takes at least as long as its rounds. On a clock on which every
/// download takes `duration`, a batch of `total` items of which `limit` may
/// be under way at once is not complete before as many durations have passed
/// as it has rounds: `total / limit` of them, rounded up.
pub proof fn lemma_batch_takes_its_rounds(
    total: nat,
    limit: nat,
    duration: int,
    trace: Seq<TimedStep>,
)
    requires
        limit > 0,
        0 < total <= usize::MAX,
        duration >= 0,
        on_the_clock(SchedulerState::initial(total, limit), trace, duration),
        SchedulerState::initial(total, limit).run(moves(trace)).decide().1
            == SchedulerAction::Complete,
    ensures
        trace.len() > 0,
        trace.last().at - trace.first().at >= rounds(total as int, limit as int) * duration,
{
    let init = SchedulerState::initial(total, limit);
    let s = init.run(moves(trace));
    let st = start_times(init, trace);
    let rt = return_times(init, trace);
    lemma_timeline(total, limit, duration, trace);
    lemma_decisions(s);
    assert(st.len() == total && rt.len() == total);
    assert(limit_kept(st, limit as int, duration)) by {
        assert forall|m: int| limit <= m < st.len() implies #[trigger] st[m] >= st[m - limit]
            + duration by {
            assert(st[m] >= rt[m - limit]);
            assert(rt[m - limit] >= st[m - limit] + duration);
        }
    }
    lemma_batch_duration(st, trace.first().at, limit as int, duration);
    assert(rt[total - 1] >= st[total - 1] + duration);
    assert(rt[total - 1] <= trace.last().at);
}

} // verus!

//! The records that the counters hold, and what each operation makes of them.
//!
//! A record is a plain value made of `u64` fields only. A transition takes
//! a record and gives the next one; it is defined for every record, so it
//! can be applied to whatever a shared cell happens to hold.

use vstd::prelude::*;
use crate::aggregate::{
    lemma_observe_extends, lemma_summary_bounds, lemma_sums_nonnegative, sat64, total_of, Aggregate,
};
use crate::clock::{elapsed_between, spec_elapsed_between};

verus! {

/// One call of the counter interface, with its arguments.
#[derive(Clone, Copy, Debug, PartialEq, Eq)]
pub enum Op {
    /// An operation starts at `now`.
    Begin { now: u64 },
    /// `amount` events happened; the call was made at `now`.
    Increment { amount: u64, now: u64 },
    /// The operation in flight ends at `now`.
    End { now: u64 },
    /// The caller measured one operation itself.
    SetElapsed { elapsed: u64 },
    /// The caller counted the events itself.
    SetCount { count: u64 },
    /// The operation in flight is abandoned.
    Cancel,
    /// Back to the state of a new counter.
    Reset,
}

/// A value that can be put back to the state it had when it was made.
pub trait Reset: Sized {
    /// The value as it was when it was made.
    spec fn spec_reset(self) -> Self;

    /// Puts the value back to the state it had when it was made.
    fn reset_it(&mut self)
        ensures
            *final(self) == old(self).spec_reset(),
    ;
}

/// The record of one kind of counter.
pub trait Record: Copy + Reset {
    /// What holds of the record of a new counter and of every record that
    /// operations make of it.
    spec fn wf(self) -> bool;

    /// The record after `op`.
    spec fn spec_apply(self, op: Op) -> Self;

    /// The record after `op`. Operations that mean nothing to this kind of
    /// counter leave the record as it is.
    fn apply(self, op: Op) -> (next: Self)
        ensures
            next == self.spec_apply(op),
    ;

    /// The operation `Reset` does what `reset_it` does, and the record it
    /// leaves is well formed.
    proof fn lemma_reset(self)
        ensures
            self.spec_apply(Op::Reset) == self.spec_reset(),
            self.spec_reset().wf(),
    ;

    /// No operation makes a well-formed record ill formed.
    proof fn lemma_apply_wf(self, op: Op)
        requires
            self.wf(),
        ensures
            self.spec_apply(op).wf(),
    ;
}

/// The record after the operations `ops`, applied in order.
pub open spec fn spec_run<S: Record>(start: S, ops: Seq<Op>) -> S
    decreases ops.len(),
{
    if ops.len() == 0 {
        start
    } else {
        spec_run(start, ops.drop_last()).spec_apply(ops.last())
    }
}

/// Whatever operations are committed to a counter, in whatever order, its
/// record stays well formed.
pub proof fn lemma_run_wf<S: Record>(start: S, ops: Seq<Op>)
    requires
        start.wf(),
    ensures
        spec_run(start, ops).wf(),
    decreases ops.len(),
{
    if ops.len() > 0 {
        lemma_run_wf(start, ops.drop_last());
        spec_run(start, ops.drop_last()).lemma_apply_wf(ops.last());
    }
}

/// What one operation did to a shared counter: the record it found and the
/// record it left in its place.
#[derive(Clone, Copy, Debug, PartialEq, Eq)]
pub struct Commit<S> {
    /// The record before the operation.
    pub before: S,
    /// The record after the operation.
    pub after: S,
}

/// Record of an event counter.
#[derive(Clone, Copy, Debug, PartialEq, Eq)]
pub struct EventState {
    /// Number of events counted.
    pub count: u64,
}

impl EventState {
    /// The record of a new counter.
    pub open spec fn spec_new() -> EventState {
        EventState { count: 0 }
    }

    /// The record of a new counter.
    pub fn new() -> (r: EventState)
        ensures
            r == EventState::spec_new(),
    {
        EventState { count: 0 }
    }

    /// The record after `amount` more events. The count stops at `u64::MAX`.
    pub open spec fn spec_increment(self, amount: u64) -> EventState {
        EventState { count: sat64(self.count + amount) }
    }

    /// The record with its count replaced by `count`.
    pub open spec fn spec_set_count(self, count: u64) -> EventState {
        EventState { count }
    }

    /// The record after `n` increments by one.
    pub open spec fn spec_increments(self, n: nat) -> EventState
        decreases n,
    {
        if n == 0 {
            self
        } else {
            self.spec_increments((n - 1) as nat).spec_increment(1)
        }
    }

    /// The record after one increment by each of `amounts`, in order.
    pub open spec fn spec_counted(self, amounts: Seq<u64>) -> EventState
        decreases amounts.len(),
    {
        if amounts.len() == 0 {
            self
        } else {
            self.spec_counted(amounts.drop_last()).spec_increment(amounts.last())
        }
    }

    /// Adds `amount` to the count, stopping at `u64::MAX`.
    pub fn increment(self, amount: u64) -> (r: EventState)
        ensures
            r == self.spec_increment(amount),
    {
        EventState { count: self.count.saturating_add(amount) }
    }

    /// Replaces the count by `count`.
    pub fn set_count(self, count: u64) -> (r: EventState)
        ensures
            r == self.spec_set_count(count),
    {
        EventState { count }
    }
}

impl Reset for EventState {
    open spec fn spec_reset(self) -> EventState {
        EventState::spec_new()
    }

    fn reset_it(&mut self) {
        *self = EventState::new();
    }
}

impl Record for EventState {
    open spec fn wf(self) -> bool {
        true
    }

    open spec fn spec_apply(self, op: Op) -> EventState {
        match op {
            Op::Increment { amount, .. } => self.spec_increment(amount),
            Op::SetCount { count } => self.spec_set_count(count),
            Op::Reset => EventState::spec_new(),
            _ => self,
        }
    }

    fn apply(self, op: Op) -> (next: EventState) {
        match op {
            Op::Increment { amount, .. } => self.increment(amount),
            Op::SetCount { count } => self.set_count(count),
            Op::Reset => EventState::new(),
            _ => self,
        }
    }

    proof fn lemma_reset(self) {
    }

    proof fn lemma_apply_wf(self, op: Op) {
    }
}

/// Record of an elapsed-time counter: the summary of the durations measured
/// so far, and the start of the operation in flight, if there is one.
///
/// One counter times one operation at a time. A second `begin` before the
/// first has ended replaces the start: the first operation is then never
/// measured.
#[derive(Clone, Copy, Debug, PartialEq, Eq)]
pub struct ElapsedState {
    /// Summary of the durations measured.
    pub stats: Aggregate,
    /// Not zero while an operation is in flight.
    pub running: u64,
    /// When the operation in flight began; zero when there is none.
    pub time_start: u64,
}

impl ElapsedState {
    /// The record of a new counter.
    pub open spec fn spec_new() -> ElapsedState {
        ElapsedState { stats: Aggregate::spec_empty(), running: 0, time_start: 0 }
    }

    /// The record of a new counter.
    pub fn new() -> (r: ElapsedState)
        ensures
            r == ElapsedState::spec_new(),
            r.spec_wf(),
    {
        ElapsedState { stats: Aggregate::empty(), running: 0, time_start: 0 }
    }

    /// The summary is well formed, and with nothing in flight the start is
    /// zero.
    pub open spec fn spec_wf(self) -> bool {
        &&& self.stats.wf()
        &&& self.running <= 1
        &&& self.running == 0 ==> self.time_start == 0
    }

    /// When the operation in flight began.
    pub open spec fn spec_in_flight(self) -> Option<u64> {
        if self.running != 0 {
            Some(self.time_start)
        } else {
            None
        }
    }

    /// The record once an operation has begun at `now`.
    pub open spec fn spec_begin(self, now: u64) -> ElapsedState {
        ElapsedState { stats: self.stats, running: 1, time_start: now }
    }

    /// The record once the operation in flight has ended at `now`: its
    /// duration is one more sample, and nothing is in flight. With nothing
    /// in flight the record stays as it is.
    pub open spec fn spec_end(self, now: u64) -> ElapsedState {
        if self.running != 0 {
            ElapsedState {
                stats: self.stats.spec_observe(spec_elapsed_between(self.time_start, now)),
                running: 0,
                time_start: 0,
            }
        } else {
            self
        }
    }

    /// The record once the caller has reported a duration of `elapsed`: one
    /// more sample, and what is in flight stays in flight. Zero is no
    /// measurement and leaves the record as it is.
    pub open spec fn spec_set_elapsed(self, elapsed: u64) -> ElapsedState {
        if elapsed > 0 {
            ElapsedState {
                stats: self.stats.spec_observe(elapsed),
                running: self.running,
                time_start: self.time_start,
            }
        } else {
            self
        }
    }

    /// The record with nothing in flight and the same summary.
    pub open spec fn spec_cancel(self) -> ElapsedState {
        ElapsedState { stats: self.stats, running: 0, time_start: 0 }
    }

    /// The record after timing each span of `spans` in turn: `begin` at its
    /// first time, `end` at its second.
    pub open spec fn spec_timed(self, spans: Seq<(u64, u64)>) -> ElapsedState
        decreases spans.len(),
    {
        if spans.len() == 0 {
            self
        } else {
            self.spec_timed(spans.drop_last()).spec_begin(spans.last().0).spec_end(spans.last().1)
        }
    }

    /// When the operation in flight began, if there is one.
    pub fn in_flight(&self) -> (r: Option<u64>)
        ensures
            r == self.spec_in_flight(),
    {
        if self.running != 0 {
            Some(self.time_start)
        } else {
            None
        }
    }

    /// An operation begins at `now`. One that was in flight is forgotten.
    pub fn begin(self, now: u64) -> (r: ElapsedState)
        ensures
            r == self.spec_begin(now),
            r.spec_in_flight() == Some(now),
            self.spec_wf() ==> r.spec_wf(),
    {
        ElapsedState { stats: self.stats, running: 1, time_start: now }
    }

    /// The operation in flight ends at `now`. Its duration, zero if the
    /// clock stepped back, becomes one more sample. Without an operation in
    /// flight nothing changes.
    pub fn end(self, now: u64) -> (r: ElapsedState)
        ensures
            r == self.spec_end(now),
            self.spec_in_flight() is None ==> r == self,
            self.spec_in_flight() matches Some(start) ==> r.stats == self.stats.spec_observe(
                spec_elapsed_between(start, now),
            ) && r.spec_in_flight() is None,
            self.spec_wf() ==> r.spec_wf(),
    {
        if self.running != 0 {
            let elapsed = elapsed_between(self.time_start, now);
            ElapsedState { stats: self.stats.observe(elapsed), running: 0, time_start: 0 }
        } else {
            self
        }
    }

    /// Records a duration that the caller measured. Zero is ignored. The
    /// operation in flight, if there is one, is not touched.
    pub fn set_elapsed(self, elapsed: u64) -> (r: ElapsedState)
        ensures
            r == self.spec_set_elapsed(elapsed),
            elapsed == 0 ==> r == self,
            elapsed > 0 ==> r.stats == self.stats.spec_observe(elapsed),
            r.spec_in_flight() == self.spec_in_flight(),
            self.spec_wf() ==> r.spec_wf(),
    {
        if elapsed > 0 {
            ElapsedState {
                stats: self.stats.observe(elapsed),
                running: self.running,
                time_start: self.time_start,
            }
        } else {
            self
        }
    }

    /// Abandons the operation in flight without a sample.
    pub fn cancel(self) -> (r: ElapsedState)
        ensures
            r == self.spec_cancel(),
            r.stats == self.stats,
            r.spec_in_flight() is None,
            self.spec_wf() ==> r.spec_wf(),
    {
        ElapsedState { stats: self.stats, running: 0, time_start: 0 }
    }
}

impl Reset for ElapsedState {
    open spec fn spec_reset(self) -> ElapsedState {
        ElapsedState::spec_new()
    }

    fn reset_it(&mut self) {
        *self = ElapsedState::new();
    }
}

impl Record for ElapsedState {
    open spec fn wf(self) -> bool {
        self.spec_wf()
    }

    open spec fn spec_apply(self, op: Op) -> ElapsedState {
        match op {
            Op::Begin { now } => self.spec_begin(now),
            Op::End { now } => self.spec_end(now),
            Op::SetElapsed { elapsed } => self.spec_set_elapsed(elapsed),
            Op::Cancel => self.spec_cancel(),
            Op::Reset => ElapsedState::spec_new(),
            _ => self,
        }
    }

    fn apply(self, op: Op) -> (next: ElapsedState) {
        match op {
            Op::Begin { now } => self.begin(now),
            Op::End { now } => self.end(now),
            Op::SetElapsed { elapsed } => self.set_elapsed(elapsed),
            Op::Cancel => self.cancel(),
            Op::Reset => ElapsedState::new(),
            _ => self,
        }
    }

    proof fn lemma_reset(self) {
    }

    proof fn lemma_apply_wf(self, op: Op) {
    }
}

/// Record of an interval counter: how many events there were, when the
/// first and the last of them happened, and the summary of the gaps between
/// each event and the next.
#[derive(Clone, Copy, Debug, PartialEq, Eq)]
pub struct IntervalState {
    /// Number of events.
    pub count: u64,
    /// When the first event happened.
    pub time_first: u64,
    /// When the last event happened.
    pub time_last: u64,
    /// Summary of the gaps between successive events.
    pub gaps: Aggregate,
}

impl IntervalState {
    /// The record of a new counter.
    pub open spec fn spec_new() -> IntervalState {
        IntervalState { count: 0, time_first: 0, time_last: 0, gaps: Aggregate::spec_empty() }
    }

    /// The record of a new counter.
    pub fn new() -> (r: IntervalState)
        ensures
            r == IntervalState::spec_new(),
            r.spec_wf(),
    {
        IntervalState { count: 0, time_first: 0, time_last: 0, gaps: Aggregate::empty() }
    }

    /// The summary of the gaps is well formed, and there is one gap fewer
    /// than events, as far as `u64` counts them. Without an event the record
    /// is that of a new counter.
    pub open spec fn spec_wf(self) -> bool {
        &&& self.gaps.wf()
        &&& self.count == 0 ==> self == IntervalState::spec_new()
        &&& 0 < self.count < u64::MAX ==> self.gaps.count == self.count - 1
        &&& self.count == u64::MAX ==> self.gaps.count >= u64::MAX - 1
    }

    /// The record after an event at `now`. The first event only sets the
    /// two times. Every later one adds the gap since the event before it to
    /// the summary.
    pub open spec fn spec_increment(self, now: u64) -> IntervalState {
        if self.count == 0 {
            IntervalState { count: 1, time_first: now, time_last: now, gaps: self.gaps }
        } else {
            IntervalState {
                count: sat64(self.count + 1),
                time_first: self.time_first,
                time_last: now,
                gaps: self.gaps.spec_observe(spec_elapsed_between(self.time_last, now)),
            }
        }
    }

    /// The record after events at each of `times` in turn.
    pub open spec fn spec_arrivals(self, times: Seq<u64>) -> IntervalState
        decreases times.len(),
    {
        if times.len() == 0 {
            self
        } else {
            self.spec_arrivals(times.drop_last()).spec_increment(times.last())
        }
    }

    /// An event happened at `now`.
    pub fn increment(self, now: u64) -> (r: IntervalState)
        ensures
            r == self.spec_increment(now),
            r.time_last == now,
            self.count == 0 ==> r.count == 1 && r.time_first == now && r.gaps == self.gaps,
            self.count > 0 ==> r.time_first == self.time_first && r.gaps
                == self.gaps.spec_observe(spec_elapsed_between(self.time_last, now)),
            self.spec_wf() ==> r.spec_wf(),
    {
        if self.count == 0 {
            IntervalState { count: 1, time_first: now, time_last: now, gaps: self.gaps }
        } else {
            let gap = elapsed_between(self.time_last, now);
            IntervalState {
                count: self.count.saturating_add(1),
                time_first: self.time_first,
                time_last: now,
                gaps: self.gaps.observe(gap),
            }
        }
    }
}

impl Reset for IntervalState {
    open spec fn spec_reset(self) -> IntervalState {
        IntervalState::spec_new()
    }

    fn reset_it(&mut self) {
        *self = IntervalState::new();
    }
}

impl Record for IntervalState {
    open spec fn wf(self) -> bool {
        self.spec_wf()
    }

    open spec fn spec_apply(self, op: Op) -> IntervalState {
        match op {
            Op::Increment { now, .. } => self.spec_increment(now),
            Op::Reset => IntervalState::spec_new(),
            _ => self,
        }
    }

    fn apply(self, op: Op) -> (next: IntervalState) {
        match op {
            Op::Increment { now, .. } => self.increment(now),
            Op::Reset => IntervalState::new(),
            _ => self,
        }
    }

    proof fn lemma_reset(self) {
    }

    proof fn lemma_apply_wf(self, op: Op) {
    }
}

/// Which kind of counter a record or a counter belongs to.
#[derive(Clone, Copy, Debug, PartialEq, Eq)]
pub enum CounterKind {
    /// Counts events.
    Event,
    /// Times operations.
    Elapsed,
    /// Measures the gaps between events.
    Interval,
}

/// The record of a counter of any kind.
#[derive(Clone, Copy, Debug, PartialEq, Eq)]
pub enum AnyState {
    /// Record of an event counter.
    Event(EventState),
    /// Record of an elapsed-time counter.
    Elapsed(ElapsedState),
    /// Record of an interval counter.
    Interval(IntervalState),
}

impl AnyState {
    /// The kind of counter that holds such a record.
    pub open spec fn spec_kind(self) -> CounterKind {
        match self {
            AnyState::Event(_) => CounterKind::Event,
            AnyState::Elapsed(_) => CounterKind::Elapsed,
            AnyState::Interval(_) => CounterKind::Interval,
        }
    }

    /// The kind of counter that holds such a record.
    pub fn kind(&self) -> (k: CounterKind)
        ensures
            k == self.spec_kind(),
    {
        match self {
            AnyState::Event(_) => CounterKind::Event,
            AnyState::Elapsed(_) => CounterKind::Elapsed,
            AnyState::Interval(_) => CounterKind::Interval,
        }
    }
}

impl Reset for AnyState {
    open spec fn spec_reset(self) -> AnyState {
        match self {
            AnyState::Event(s) => AnyState::Event(s.spec_reset()),
            AnyState::Elapsed(s) => AnyState::Elapsed(s.spec_reset()),
            AnyState::Interval(s) => AnyState::Interval(s.spec_reset()),
        }
    }

    fn reset_it(&mut self) {
        let fresh = match *self {
            AnyState::Event(_) => AnyState::Event(EventState::new()),
            AnyState::Elapsed(_) => AnyState::Elapsed(ElapsedState::new()),
            AnyState::Interval(_) => AnyState::Interval(IntervalState::new()),
        };
        *self = fresh;
    }
}

impl Record for AnyState {
    open spec fn wf(self) -> bool {
        match self {
            AnyState::Event(s) => s.wf(),
            AnyState::Elapsed(s) => s.wf(),
            AnyState::Interval(s) => s.wf(),
        }
    }

    open spec fn spec_apply(self, op: Op) -> AnyState {
        match self {
            AnyState::Event(s) => AnyState::Event(s.spec_apply(op)),
            AnyState::Elapsed(s) => AnyState::Elapsed(s.spec_apply(op)),
            AnyState::Interval(s) => AnyState::Interval(s.spec_apply(op)),
        }
    }

    fn apply(self, op: Op) -> (next: AnyState) {
        match self {
            AnyState::Event(s) => AnyState::Event(s.apply(op)),
            AnyState::Elapsed(s) => AnyState::Elapsed(s.apply(op)),
            AnyState::Interval(s) => AnyState::Interval(s.apply(op)),
        }
    }

    proof fn lemma_reset(self) {
    }

    proof fn lemma_apply_wf(self, op: Op) {
    }
}

/// The duration of each span: from its first time to its second.
pub open spec fn durations(spans: Seq<(u64, u64)>) -> Seq<u64> {
    Seq::new(spans.len(), |i: int| spec_elapsed_between(spans[i].0, spans[i].1))
}

/// The gap between each of `times` and the next.
pub open spec fn gaps_of(times: Seq<u64>) -> Seq<u64> {
    Seq::new(
        if times.len() > 0 {
            (times.len() - 1) as nat
        } else {
            0
        },
        |i: int| spec_elapsed_between(times[i], times[i + 1]),
    )
}

/// Increments add up: after one increment by each of `amounts` the count
/// has grown by their sum, as far as `u64` reaches. The sum does not depend
/// on the order of the amounts, so neither does the count.
pub proof fn lemma_counted(start: EventState, amounts: Seq<u64>)
    ensures
        start.spec_counted(amounts).count == sat64(start.count + total_of(amounts)),
    decreases amounts.len(),
{
    if amounts.len() > 0 {
        lemma_counted(start, amounts.drop_last());
        lemma_sums_nonnegative(amounts.drop_last());
    }
}

/// A new event counter that is incremented by one `m` times counts `m`.
pub proof fn lemma_increments_count(m: nat)
    ensures
        EventState::spec_new().spec_increments(m).count == sat64(m as int),
    decreases m,
{
    if m > 0 {
        lemma_increments_count((m - 1) as nat);
    }
}

/// `n` callers that each increment a new event counter by one `k` times
/// leave a count of `n * k`, as far as `u64` reaches. The calls are taken
/// one after another here, in whatever order they were committed; that a
/// shared counter applies each call exactly once is the business of its
/// cell.
pub proof fn lemma_callers_count(n: nat, k: nat)
    ensures
        EventState::spec_new().spec_increments(n * k).count == sat64((n * k) as int),
{
    lemma_increments_count(n * k);
}

/// After a new counter has timed a series of operations one after another,
/// its summary is that of their durations. There are as many samples as
/// operations, each duration lies between `min` and `max`, and `total` is
/// the sum of the durations as long as that sum fits.
pub proof fn lemma_timed_series(spans: Seq<(u64, u64)>)
    ensures
        ({
            let r = ElapsedState::spec_new().spec_timed(spans);
            let d = durations(spans);
            &&& r.stats.summarizes(d)
            &&& r.spec_in_flight() is None
            &&& r.stats.count == sat64(spans.len() as int)
            &&& forall|i: int| 0 <= i < d.len() ==> r.stats.min <= #[trigger] d[i] <= r.stats.max
            &&& total_of(d) <= u64::MAX ==> r.stats.total == total_of(d)
        }),
    decreases spans.len(),
{
    let r = ElapsedState::spec_new().spec_timed(spans);
    let d = durations(spans);
    if spans.len() == 0 {
        assert(d =~= Seq::<u64>::empty());
    } else {
        let before = ElapsedState::spec_new().spec_timed(spans.drop_last());
        let x = spec_elapsed_between(spans.last().0, spans.last().1);
        lemma_timed_series(spans.drop_last());
        lemma_observe_extends(before.stats, durations(spans.drop_last()), x);
        assert(durations(spans.drop_last()).push(x) =~= d);
        lemma_summary_bounds(r.stats, d);
    }
}

/// An operation that begins and is cancelled leaves the summary, and with
/// it the count, as it was before the `begin`, and an `end` that comes
/// after the cancel changes nothing.
pub proof fn lemma_cancel_leaves_summary(s: ElapsedState, begun: u64, ended: u64)
    ensures
        s.spec_begin(begun).spec_cancel().stats == s.stats,
        s.spec_begin(begun).spec_cancel().spec_in_flight() is None,
        s.spec_begin(begun).spec_cancel().spec_end(ended) == s.spec_begin(begun).spec_cancel(),
{
}

/// After events at `times`, a new interval counter has counted them all,
/// holds the times of the first and the last, and summarises the gaps
/// between neighbours.
pub proof fn lemma_arrivals(times: Seq<u64>)
    requires
        times.len() > 0,
    ensures
        ({
            let r = IntervalState::spec_new().spec_arrivals(times);
            &&& r.count == sat64(times.len() as int)
            &&& r.time_first == times[0]
            &&& r.time_last == times.last()
            &&& r.gaps.summarizes(gaps_of(times))
        }),
    decreases times.len(),
{
    let r = IntervalState::spec_new().spec_arrivals(times);
    if times.len() == 1 {
        assert(times.drop_last().len() == 0);
        assert(IntervalState::spec_new().spec_arrivals(times.drop_last())
            == IntervalState::spec_new());
        assert(gaps_of(times) =~= Seq::<u64>::empty());
    } else {
        let earlier = times.drop_last();
        let before = IntervalState::spec_new().spec_arrivals(earlier);
        lemma_arrivals(earlier);
        let x = spec_elapsed_between(earlier.last(), times.last());
        lemma_observe_extends(before.gaps, gaps_of(earlier), x);
        assert(gaps_of(earlier).push(x) =~= gaps_of(times));
    }
}

/// The first event of a new interval counter leaves the summary of gaps
/// empty, with `min` and `max` zero. The second makes both the gap between
/// the two. The third makes them the smaller and the larger of the two gaps
/// there are by then.
pub proof fn lemma_first_three_events(t1: u64, t2: u64, t3: u64)
    ensures
        ({
            let first = IntervalState::spec_new().spec_increment(t1);
            let second = first.spec_increment(t2);
            let third = second.spec_increment(t3);
            let gap2 = spec_elapsed_between(t1, t2);
            let gap3 = spec_elapsed_between(t2, t3);
            &&& first.count == 1 && first.gaps == Aggregate::spec_empty()
            &&& second.count == 2 && second.gaps.min == gap2 && second.gaps.max == gap2
            &&& third.count == 3
            &&& third.gaps.min == if gap3 < gap2 { gap3 } else { gap2 }
            &&& third.gaps.max == if gap3 > gap2 { gap3 } else { gap2 }
            &&& t1 <= t2 ==> gap2 == t2 - t1
            &&& t2 <= t3 ==> gap3 == t3 - t2
        }),
{
}

} // verus!

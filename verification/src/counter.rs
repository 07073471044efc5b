//! The counters: shared cells that producers update from any thread.
//!
//! Every operation takes `&self`, replaces the counter's record in one
//! atomic step and reports that step as a `Commit`. The record a call finds
//! depends on what other threads did before it; the record it leaves is the
//! transition of `state` applied to the one it found.

use vstd::prelude::*;
use atomic::Atomic;
use crate::cell::{cell_load, cell_new, cell_update};
use crate::state::{AnyState, Commit, CounterKind, ElapsedState, EventState, IntervalState, Op, Record, Reset};

verus! {

/// What a counter is called. Fixed when the counter is made.
#[derive(Clone, Debug)]
pub struct Header {
    name: String,
}

impl View for Header {
    type V = Seq<char>;

    closed spec fn view(&self) -> Seq<char> {
        self.name@
    }
}

impl Header {
    /// A header with the given name.
    pub fn new(name: &str) -> (h: Header)
        ensures
            h@ == name@,
    {
        Header { name: name.to_owned() }
    }

    /// The name.
    pub fn name(&self) -> (r: &str)
        ensures
            r@ == self@,
    {
        self.name.as_str()
    }
}

/// The operations of a counter. Each can be called from any thread at any
/// time. An operation that means nothing to a kind of counter leaves its
/// record as it is.
pub trait Counter {
    /// The record that this kind of counter holds.
    type Record: Record;

    /// The name of the counter.
    spec fn spec_name(&self) -> Seq<char>;

    /// The header of the counter.
    fn header(&self) -> (h: &Header)
        ensures
            h@ == self.spec_name(),
    ;

    /// The record that the counter holds now, all of its fields read in one
    /// step.
    fn snapshot(&self) -> Self::Record;

    /// An operation starts at `now`.
    fn begin(&self, now: u64) -> (done: Commit<Self::Record>)
        ensures
            done.after == done.before.spec_apply(Op::Begin { now }),
    ;

    /// `amount` events happened, at `now`.
    fn increment(&self, amount: u64, now: u64) -> (done: Commit<Self::Record>)
        ensures
            done.after == done.before.spec_apply(Op::Increment { amount, now }),
    ;

    /// The operation in flight ends at `now`.
    fn end(&self, now: u64) -> (done: Commit<Self::Record>)
        ensures
            done.after == done.before.spec_apply(Op::End { now }),
    ;

    /// The caller measured a duration of `elapsed` itself.
    fn set_elapsed(&self, elapsed: u64) -> (done: Commit<Self::Record>)
        ensures
            done.after == done.before.spec_apply(Op::SetElapsed { elapsed }),
    ;

    /// The caller counted `count` events itself.
    fn set_count(&self, count: u64) -> (done: Commit<Self::Record>)
        ensures
            done.after == done.before.spec_apply(Op::SetCount { count }),
    ;

    /// The operation in flight is abandoned.
    fn cancel(&self) -> (done: Commit<Self::Record>)
        ensures
            done.after == done.before.spec_apply(Op::Cancel),
    ;

    /// Puts the counter back to the record of a new one. Updates that other
    /// threads commit before this one are discarded with it.
    fn reset(&self) -> (done: Commit<Self::Record>)
        ensures
            done.after == done.before.spec_reset(),
    ;
}

/// Installs the record after `op` in `cell` and reports the step. The cell
/// hands back the record it replaced; what it put there is the transition
/// of that record, which is computed once more here for the report.
fn commit<S: Record>(cell: &Atomic<S>, op: Op) -> (done: Commit<S>)
    ensures
        done.after == done.before.spec_apply(op),
{
    let before = cell_update(cell, op);
    Commit { before, after: before.apply(op) }
}

/// Reads the record in `cell` and reports a step that changed nothing.
fn unchanged<S: Record>(cell: &Atomic<S>) -> (done: Commit<S>)
    ensures
        done.after == done.before,
{
    let before = cell_load(cell);
    Commit { before, after: before }
}

/// Counts events.
#[derive(Debug)]
pub struct EventCounter {
    header: Header,
    cell: Atomic<EventState>,
}

impl EventCounter {
    /// A counter called `name` with the record of a new counter.
    pub fn new(name: &str) -> (c: EventCounter)
        ensures
            c.spec_name() == name@,
    {
        EventCounter { header: Header::new(name), cell: cell_new(EventState::new()) }
    }
}

impl Counter for EventCounter {
    type Record = EventState;

    closed spec fn spec_name(&self) -> Seq<char> {
        self.header@
    }

    fn header(&self) -> (h: &Header) {
        &self.header
    }

    fn snapshot(&self) -> EventState {
        cell_load(&self.cell)
    }

    /// Means nothing to this kind of counter: the record stays as it is.
    fn begin(&self, now: u64) -> (done: Commit<EventState>)
        ensures
            done.after == done.before,
    {
        unchanged(&self.cell)
    }

    /// Adds `amount` to the count, which stops at `u64::MAX`. `now` is not
    /// used.
    fn increment(&self, amount: u64, now: u64) -> (done: Commit<EventState>)
        ensures
            done.after == done.before.spec_increment(amount),
    {
        commit(&self.cell, Op::Increment { amount, now })
    }

    /// Means nothing to this kind of counter: the record stays as it is.
    fn end(&self, now: u64) -> (done: Commit<EventState>)
        ensures
            done.after == done.before,
    {
        unchanged(&self.cell)
    }

    /// Means nothing to this kind of counter: the record stays as it is.
    fn set_elapsed(&self, elapsed: u64) -> (done: Commit<EventState>)
        ensures
            done.after == done.before,
    {
        unchanged(&self.cell)
    }

    /// Replaces the count by `count`.
    fn set_count(&self, count: u64) -> (done: Commit<EventState>)
        ensures
            done.after == done.before.spec_set_count(count),
    {
        commit(&self.cell, Op::SetCount { count })
    }

    /// Means nothing to this kind of counter: the record stays as it is.
    fn cancel(&self) -> (done: Commit<EventState>)
        ensures
            done.after == done.before,
    {
        unchanged(&self.cell)
    }

    /// Puts the count back to zero.
    fn reset(&self) -> (done: Commit<EventState>)
        ensures
            done.after == EventState::spec_new(),
    {
        commit(&self.cell, Op::Reset)
    }
}

/// Times operations, one at a time, and summarises their durations.
#[derive(Debug)]
pub struct ElapsedCounter {
    header: Header,
    cell: Atomic<ElapsedState>,
}

impl ElapsedCounter {
    /// A counter called `name` with the record of a new counter.
    pub fn new(name: &str) -> (c: ElapsedCounter)
        ensures
            c.spec_name() == name@,
    {
        ElapsedCounter { header: Header::new(name), cell: cell_new(ElapsedState::new()) }
    }
}

impl Counter for ElapsedCounter {
    type Record = ElapsedState;

    closed spec fn spec_name(&self) -> Seq<char> {
        self.header@
    }

    fn header(&self) -> (h: &Header) {
        &self.header
    }

    fn snapshot(&self) -> ElapsedState {
        cell_load(&self.cell)
    }

    /// An operation starts at `now`. If one was in flight already, its start is
    /// replaced and it is never measured.
    fn begin(&self, now: u64) -> (done: Commit<ElapsedState>)
        ensures
            done.after == done.before.spec_begin(now),
    {
        commit(&self.cell, Op::Begin { now })
    }

    /// Means nothing to this kind of counter: the record stays as it is.
    fn increment(&self, amount: u64, now: u64) -> (done: Commit<ElapsedState>)
        ensures
            done.after == done.before,
    {
        unchanged(&self.cell)
    }

    /// The operation in flight ends at `now`: its duration, zero if the clock
    /// stepped back, becomes one more sample. With nothing in flight the record
    /// stays as it is.
    fn end(&self, now: u64) -> (done: Commit<ElapsedState>)
        ensures
            done.after == done.before.spec_end(now),
    {
        commit(&self.cell, Op::End { now })
    }

    /// Records a duration that the caller measured. Zero is ignored. The
    /// operation in flight, if there is one, is not touched.
    fn set_elapsed(&self, elapsed: u64) -> (done: Commit<ElapsedState>)
        ensures
            done.after == done.before.spec_set_elapsed(elapsed),
    {
        commit(&self.cell, Op::SetElapsed { elapsed })
    }

    /// Means nothing to this kind of counter: the record stays as it is.
    fn set_count(&self, count: u64) -> (done: Commit<ElapsedState>)
        ensures
            done.after == done.before,
    {
        unchanged(&self.cell)
    }

    /// Abandons the operation in flight without a sample.
    fn cancel(&self) -> (done: Commit<ElapsedState>)
        ensures
            done.after == done.before.spec_cancel(),
    {
        commit(&self.cell, Op::Cancel)
    }

    /// Puts the counter back to no samples and nothing in flight.
    fn reset(&self) -> (done: Commit<ElapsedState>)
        ensures
            done.after == ElapsedState::spec_new(),
    {
        commit(&self.cell, Op::Reset)
    }
}

/// Summarises the gaps between successive events.
#[derive(Debug)]
pub struct IntervalCounter {
    header: Header,
    cell: Atomic<IntervalState>,
}

impl IntervalCounter {
    /// A counter called `name` with the record of a new counter.
    pub fn new(name: &str) -> (c: IntervalCounter)
        ensures
            c.spec_name() == name@,
    {
        IntervalCounter { header: Header::new(name), cell: cell_new(IntervalState::new()) }
    }
}

impl Counter for IntervalCounter {
    type Record = IntervalState;

    closed spec fn spec_name(&self) -> Seq<char> {
        self.header@
    }

    fn header(&self) -> (h: &Header) {
        &self.header
    }

    fn snapshot(&self) -> IntervalState {
        cell_load(&self.cell)
    }

    /// Means nothing to this kind of counter: the record stays as it is.
    fn begin(&self, now: u64) -> (done: Commit<IntervalState>)
        ensures
            done.after == done.before,
    {
        unchanged(&self.cell)
    }

    /// An event happened at `now`. The first event only sets the two times;
    /// every later one adds the gap since the event before it. `amount` is not
    /// used: one call is one event.
    fn increment(&self, amount: u64, now: u64) -> (done: Commit<IntervalState>)
        ensures
            done.after == done.before.spec_increment(now),
    {
        commit(&self.cell, Op::Increment { amount, now })
    }

    /// Means nothing to this kind of counter: the record stays as it is.
    fn end(&self, now: u64) -> (done: Commit<IntervalState>)
        ensures
            done.after == done.before,
    {
        unchanged(&self.cell)
    }

    /// Means nothing to this kind of counter: the record stays as it is.
    fn set_elapsed(&self, elapsed: u64) -> (done: Commit<IntervalState>)
        ensures
            done.after == done.before,
    {
        unchanged(&self.cell)
    }

    /// Means nothing to this kind of counter: the record stays as it is.
    fn set_count(&self, count: u64) -> (done: Commit<IntervalState>)
        ensures
            done.after == done.before,
    {
        unchanged(&self.cell)
    }

    /// Means nothing to this kind of counter: the record stays as it is.
    fn cancel(&self) -> (done: Commit<IntervalState>)
        ensures
            done.after == done.before,
    {
        unchanged(&self.cell)
    }

    /// Puts the counter back to no events.
    fn reset(&self) -> (done: Commit<IntervalState>)
        ensures
            done.after == IntervalState::spec_new(),
    {
        commit(&self.cell, Op::Reset)
    }
}

/// A kind of counter that can be made by name and stored with the others.
pub trait Variant: Counter + Sized {
    /// The kind of these counters.
    spec fn spec_kind_of() -> CounterKind;

    /// A new counter of this kind called `name`.
    fn named(name: &str) -> (c: Self)
        ensures
            c.spec_name() == name@,
    ;

    /// The counter, as one of any kind.
    fn into_any(self) -> (c: AnyCounter)
        ensures
            c.spec_kind() == Self::spec_kind_of(),
            c.spec_name() == self.spec_name(),
    ;
}

impl Variant for EventCounter {
    open spec fn spec_kind_of() -> CounterKind {
        CounterKind::Event
    }

    fn named(name: &str) -> (c: EventCounter) {
        EventCounter::new(name)
    }

    fn into_any(self) -> (c: AnyCounter) {
        AnyCounter::Event(self)
    }
}

impl Variant for ElapsedCounter {
    open spec fn spec_kind_of() -> CounterKind {
        CounterKind::Elapsed
    }

    fn named(name: &str) -> (c: ElapsedCounter) {
        ElapsedCounter::new(name)
    }

    fn into_any(self) -> (c: AnyCounter) {
        AnyCounter::Elapsed(self)
    }
}

impl Variant for IntervalCounter {
    open spec fn spec_kind_of() -> CounterKind {
        CounterKind::Interval
    }

    fn named(name: &str) -> (c: IntervalCounter) {
        IntervalCounter::new(name)
    }

    fn into_any(self) -> (c: AnyCounter) {
        AnyCounter::Interval(self)
    }
}

/// A counter of any of the three kinds.
#[derive(Debug)]
pub enum AnyCounter {
    /// Counts events.
    Event(EventCounter),
    /// Times operations.
    Elapsed(ElapsedCounter),
    /// Measures the gaps between events.
    Interval(IntervalCounter),
}

/// The step of an event counter, as a step of a counter of any kind.
fn event_step(done: Commit<EventState>) -> (r: Commit<AnyState>)
    ensures
        r.before == AnyState::Event(done.before),
        r.after == AnyState::Event(done.after),
        forall|op: Op|
            done.after == #[trigger] done.before.spec_apply(op) ==> r.after
                == r.before.spec_apply(op),
        done.after == done.before.spec_reset() ==> r.after == r.before.spec_reset(),
{
    Commit { before: AnyState::Event(done.before), after: AnyState::Event(done.after) }
}

/// The step of an elapsed-time counter, as a step of a counter of any kind.
fn elapsed_step(done: Commit<ElapsedState>) -> (r: Commit<AnyState>)
    ensures
        r.before == AnyState::Elapsed(done.before),
        r.after == AnyState::Elapsed(done.after),
        forall|op: Op|
            done.after == #[trigger] done.before.spec_apply(op) ==> r.after
                == r.before.spec_apply(op),
        done.after == done.before.spec_reset() ==> r.after == r.before.spec_reset(),
{
    Commit { before: AnyState::Elapsed(done.before), after: AnyState::Elapsed(done.after) }
}

/// The step of an interval counter, as a step of a counter of any kind.
fn interval_step(done: Commit<IntervalState>) -> (r: Commit<AnyState>)
    ensures
        r.before == AnyState::Interval(done.before),
        r.after == AnyState::Interval(done.after),
        forall|op: Op|
            done.after == #[trigger] done.before.spec_apply(op) ==> r.after
                == r.before.spec_apply(op),
        done.after == done.before.spec_reset() ==> r.after == r.before.spec_reset(),
{
    Commit { before: AnyState::Interval(done.before), after: AnyState::Interval(done.after) }
}

impl AnyCounter {
    /// Which kind of counter this is.
    pub open spec fn spec_kind(&self) -> CounterKind {
        match self {
            AnyCounter::Event(_) => CounterKind::Event,
            AnyCounter::Elapsed(_) => CounterKind::Elapsed,
            AnyCounter::Interval(_) => CounterKind::Interval,
        }
    }

    /// Which kind of counter this is.
    pub fn kind(&self) -> (k: CounterKind)
        ensures
            k == self.spec_kind(),
    {
        match self {
            AnyCounter::Event(_) => CounterKind::Event,
            AnyCounter::Elapsed(_) => CounterKind::Elapsed,
            AnyCounter::Interval(_) => CounterKind::Interval,
        }
    }

    /// The event counter, if this is one.
    pub fn as_event(&self) -> (r: Option<&EventCounter>)
        ensures
            r is Some <==> self.spec_kind() == CounterKind::Event,
            r matches Some(c) ==> *self == AnyCounter::Event(*c),
    {
        match self {
            AnyCounter::Event(c) => Some(c),
            _ => None,
        }
    }

    /// The elapsed-time counter, if this is one.
    pub fn as_elapsed(&self) -> (r: Option<&ElapsedCounter>)
        ensures
            r is Some <==> self.spec_kind() == CounterKind::Elapsed,
            r matches Some(c) ==> *self == AnyCounter::Elapsed(*c),
    {
        match self {
            AnyCounter::Elapsed(c) => Some(c),
            _ => None,
        }
    }

    /// The interval counter, if this is one.
    pub fn as_interval(&self) -> (r: Option<&IntervalCounter>)
        ensures
            r is Some <==> self.spec_kind() == CounterKind::Interval,
            r matches Some(c) ==> *self == AnyCounter::Interval(*c),
    {
        match self {
            AnyCounter::Interval(c) => Some(c),
            _ => None,
        }
    }
}

impl Counter for AnyCounter {
    type Record = AnyState;

    open spec fn spec_name(&self) -> Seq<char> {
        match self {
            AnyCounter::Event(c) => c.spec_name(),
            AnyCounter::Elapsed(c) => c.spec_name(),
            AnyCounter::Interval(c) => c.spec_name(),
        }
    }

    fn header(&self) -> (h: &Header) {
        match self {
            AnyCounter::Event(c) => c.header(),
            AnyCounter::Elapsed(c) => c.header(),
            AnyCounter::Interval(c) => c.header(),
        }
    }

    fn snapshot(&self) -> (s: AnyState)
        ensures
            s.spec_kind() == self.spec_kind(),
    {
        match self {
            AnyCounter::Event(c) => AnyState::Event(c.snapshot()),
            AnyCounter::Elapsed(c) => AnyState::Elapsed(c.snapshot()),
            AnyCounter::Interval(c) => AnyState::Interval(c.snapshot()),
        }
    }

    fn begin(&self, now: u64) -> (done: Commit<AnyState>)
        ensures
            done.before.spec_kind() == self.spec_kind(),
    {
        match self {
            AnyCounter::Event(c) => event_step(c.begin(now)),
            AnyCounter::Elapsed(c) => elapsed_step(c.begin(now)),
            AnyCounter::Interval(c) => interval_step(c.begin(now)),
        }
    }

    fn increment(&self, amount: u64, now: u64) -> (done: Commit<AnyState>)
        ensures
            done.before.spec_kind() == self.spec_kind(),
    {
        match self {
            AnyCounter::Event(c) => event_step(c.increment(amount, now)),
            AnyCounter::Elapsed(c) => elapsed_step(c.increment(amount, now)),
            AnyCounter::Interval(c) => interval_step(c.increment(amount, now)),
        }
    }

    fn end(&self, now: u64) -> (done: Commit<AnyState>)
        ensures
            done.before.spec_kind() == self.spec_kind(),
    {
        match self {
            AnyCounter::Event(c) => event_step(c.end(now)),
            AnyCounter::Elapsed(c) => elapsed_step(c.end(now)),
            AnyCounter::Interval(c) => interval_step(c.end(now)),
        }
    }

    fn set_elapsed(&self, elapsed: u64) -> (done: Commit<AnyState>)
        ensures
            done.before.spec_kind() == self.spec_kind(),
    {
        match self {
            AnyCounter::Event(c) => event_step(c.set_elapsed(elapsed)),
            AnyCounter::Elapsed(c) => elapsed_step(c.set_elapsed(elapsed)),
            AnyCounter::Interval(c) => interval_step(c.set_elapsed(elapsed)),
        }
    }

    fn set_count(&self, count: u64) -> (done: Commit<AnyState>)
        ensures
            done.before.spec_kind() == self.spec_kind(),
    {
        match self {
            AnyCounter::Event(c) => event_step(c.set_count(count)),
            AnyCounter::Elapsed(c) => elapsed_step(c.set_count(count)),
            AnyCounter::Interval(c) => interval_step(c.set_count(count)),
        }
    }

    fn cancel(&self) -> (done: Commit<AnyState>)
        ensures
            done.before.spec_kind() == self.spec_kind(),
    {
        match self {
            AnyCounter::Event(c) => event_step(c.cancel()),
            AnyCounter::Elapsed(c) => elapsed_step(c.cancel()),
            AnyCounter::Interval(c) => interval_step(c.cancel()),
        }
    }

    fn reset(&self) -> (done: Commit<AnyState>)
        ensures
            done.before.spec_kind() == self.spec_kind(),
    {
        match self {
            AnyCounter::Event(c) => event_step(c.reset()),
            AnyCounter::Elapsed(c) => elapsed_step(c.reset()),
            AnyCounter::Interval(c) => interval_step(c.reset()),
        }
    }
}

} // verus!

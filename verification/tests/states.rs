use lockfree_counters::aggregate::Aggregate;
use lockfree_counters::clock::{elapsed_between, nanoseconds};
use lockfree_counters::{
    AnyState, CounterKind, ElapsedState, EventState, IntervalState, Op, Record, Reset,
};

#[test]
fn aggregate_empty_is_all_zero() {
    let a = Aggregate::empty();
    assert_eq!(a, Aggregate { count: 0, total: 0, min: 0, max: 0, sq_hi: 0, sq_lo: 0 });
    assert_eq!(a.sum_sq(), 0);
    assert_eq!(a.spread(), Some(0));
}

#[test]
fn aggregate_observe_exact_values() {
    let a = Aggregate::empty().observe(4).observe(10).observe(1);
    assert_eq!(a.count, 3);
    assert_eq!(a.total, 15);
    assert_eq!(a.min, 1);
    assert_eq!(a.max, 10);
    assert_eq!(a.sum_sq(), 16 + 100 + 1);
    // 3 * 117 - 15 * 15
    assert_eq!(a.spread(), Some(126));
}

#[test]
fn aggregate_first_sample_zero_sets_both_extremes() {
    let a = Aggregate::empty().observe(0);
    assert_eq!(a.count, 1);
    assert_eq!(a.min, 0);
    assert_eq!(a.max, 0);
    let b = a.observe(6);
    assert_eq!(b.min, 0);
    assert_eq!(b.max, 6);
}

#[test]
fn aggregate_welford_recurrence_on_values() {
    // mean 5, sum of squared deviations 50 for 0, 5, 10
    let a = Aggregate::empty().observe(0).observe(5).observe(10);
    assert_eq!(a.spread(), Some(3 * 50));
    let b = a.observe(9);
    // n * spread' == (n + 1) * spread + (n * x - t)^2 with n = 3, t = 15, x = 9
    assert_eq!(3 * b.spread().unwrap(), 4 * 150 + (27 - 15) * (27 - 15));
}

#[test]
fn aggregate_sum_of_squares_uses_both_limbs() {
    let a = Aggregate::empty().observe(u64::MAX);
    let square = (u64::MAX as u128) * (u64::MAX as u128);
    assert_eq!(a.sum_sq(), square);
    assert_eq!(a.sq_hi, u64::MAX - 1);
    assert_eq!(a.sq_lo, 1);
    assert_eq!(a.spread(), Some(0));
}

#[test]
fn aggregate_sums_saturate() {
    let a = Aggregate::empty().observe(u64::MAX).observe(u64::MAX);
    assert_eq!(a.count, 2);
    assert_eq!(a.total, u64::MAX);
    assert_eq!(a.sum_sq(), u128::MAX);
    assert_eq!(a.min, u64::MAX);
    assert_eq!(a.max, u64::MAX);
    let full = Aggregate { count: u64::MAX, total: 9, min: 1, max: 8, sq_hi: 0, sq_lo: 65 };
    assert_eq!(full.observe(2).count, u64::MAX);
    assert_eq!(full.observe(2).total, 11);
}

#[test]
fn aggregate_spread_refuses_what_does_not_fit() {
    let a = Aggregate { count: 1, total: 10, min: 1, max: 1, sq_hi: 0, sq_lo: 1 };
    assert_eq!(a.spread(), None);
    let b = Aggregate { count: 3, total: 0, min: 0, max: 0, sq_hi: u64::MAX, sq_lo: 0 };
    assert_eq!(b.spread(), None);
}

#[test]
fn clock_nanoseconds_of_a_reading() {
    assert_eq!(nanoseconds(0, 0, 0), Some(0));
    assert_eq!(nanoseconds(0, 1, 5), Some(1_000_000_005));
    assert_eq!(nanoseconds(0, 12, 999_999_999), Some(12_999_999_999));
    assert_eq!(nanoseconds(0, 18_446_744_073, 709_551_615), Some(u64::MAX));
}

#[test]
fn clock_nanoseconds_refuses_bad_readings() {
    assert_eq!(nanoseconds(-1, 1, 5), None);
    assert_eq!(nanoseconds(1, 1, 5), None);
    assert_eq!(nanoseconds(0, -1, 5), None);
    assert_eq!(nanoseconds(0, 1, -5), None);
    assert_eq!(nanoseconds(0, 1, 1_000_000_000), None);
    assert_eq!(nanoseconds(0, 18_446_744_073, 709_551_616), None);
    assert_eq!(nanoseconds(0, 18_446_744_074, 0), None);
    assert_eq!(nanoseconds(0, i64::MAX, 0), None);
}

#[test]
fn clock_elapsed_is_clamped() {
    assert_eq!(elapsed_between(10, 25), 15);
    assert_eq!(elapsed_between(25, 25), 0);
    assert_eq!(elapsed_between(25, 10), 0);
    assert_eq!(elapsed_between(0, u64::MAX), u64::MAX);
}

#[test]
fn event_state_transitions() {
    let s = EventState::new();
    assert_eq!(s.count, 0);
    assert_eq!(s.increment(1).increment(1).count, 2);
    assert_eq!(s.increment(u64::MAX).increment(1).count, u64::MAX);
    assert_eq!(s.increment(5).set_count(2).count, 2);
}

#[test]
fn event_state_n_times_k_increments() {
    let n = 7;
    let k = 13;
    let mut s = EventState::new();
    for _ in 0..n {
        for _ in 0..k {
            s = s.increment(1);
        }
    }
    assert_eq!(s.count, n * k);
}

#[test]
fn event_state_amounts_add_up_in_any_order() {
    let forward = [5u64, 0, 12, 3];
    let backward = [3u64, 12, 0, 5];
    let mut a = EventState { count: 10 };
    for x in forward {
        a = a.increment(x);
    }
    let mut b = EventState { count: 10 };
    for x in backward {
        b = b.increment(x);
    }
    assert_eq!(a.count, 30);
    assert_eq!(a, b);
}

#[test]
fn event_state_apply() {
    let s = EventState { count: 4 };
    assert_eq!(s.apply(Op::Increment { amount: 2, now: 9 }).count, 6);
    assert_eq!(s.apply(Op::SetCount { count: 1 }).count, 1);
    assert_eq!(s.apply(Op::Reset), EventState::new());
    assert_eq!(s.apply(Op::Begin { now: 1 }), s);
    assert_eq!(s.apply(Op::End { now: 1 }), s);
    assert_eq!(s.apply(Op::SetElapsed { elapsed: 1 }), s);
    assert_eq!(s.apply(Op::Cancel), s);
}

#[test]
fn elapsed_state_begin_end() {
    let s = ElapsedState::new().begin(1000);
    assert_eq!(s.in_flight(), Some(1000));
    assert_eq!(s.stats, Aggregate::empty());
    let s = s.end(1100);
    assert_eq!(s.in_flight(), None);
    assert_eq!(s.time_start, 0);
    assert_eq!(s.stats.count, 1);
    assert_eq!(s.stats.total, 100);
    assert_eq!(s.stats.min, 100);
    assert_eq!(s.stats.max, 100);
}

#[test]
fn elapsed_state_begin_at_zero_is_in_flight() {
    let s = ElapsedState::new().begin(0);
    assert_eq!(s.in_flight(), Some(0));
    assert_eq!(s.end(100).stats.total, 100);
}

#[test]
fn elapsed_state_cancel_and_end_without_begin() {
    let base = ElapsedState::new().set_elapsed(7);
    assert_eq!(base.begin(10).cancel(), base);
    assert_eq!(base.end(50), base);
    assert_eq!(base.begin(10).cancel().end(50), base);
    assert_eq!(base.cancel(), base);
}

#[test]
fn elapsed_state_set_elapsed() {
    let s = ElapsedState::new();
    assert_eq!(s.set_elapsed(0), s);
    assert_eq!(s.begin(5).set_elapsed(0).in_flight(), Some(5));
    let t = s.begin(5).set_elapsed(9);
    assert_eq!(t.in_flight(), Some(5));
    assert_eq!(t.stats.count, 1);
    assert_eq!(t.stats.total, 9);
}

#[test]
fn elapsed_state_apply() {
    let s = ElapsedState::new();
    assert_eq!(s.apply(Op::Begin { now: 3 }), s.begin(3));
    assert_eq!(s.begin(3).apply(Op::End { now: 8 }), s.begin(3).end(8));
    assert_eq!(s.apply(Op::SetElapsed { elapsed: 8 }), s.set_elapsed(8));
    assert_eq!(s.begin(3).apply(Op::Cancel), s);
    assert_eq!(s.set_elapsed(8).apply(Op::Reset), s);
    assert_eq!(s.apply(Op::Increment { amount: 1, now: 2 }), s);
    assert_eq!(s.apply(Op::SetCount { count: 1 }), s);
}

#[test]
fn interval_state_arrivals() {
    let s = IntervalState::new().increment(0);
    assert_eq!(s.count, 1);
    assert_eq!(s.gaps, Aggregate::empty());
    let s = s.increment(10);
    assert_eq!(s.gaps.min, 10);
    assert_eq!(s.gaps.max, 10);
    let s = s.increment(25);
    assert_eq!(s.count, 3);
    assert_eq!(s.gaps.min, 10);
    assert_eq!(s.gaps.max, 15);
    assert_eq!(s.time_first, 0);
    assert_eq!(s.time_last, 25);
}

#[test]
fn interval_state_clock_stepping_back() {
    let s = IntervalState::new().increment(50).increment(20);
    assert_eq!(s.gaps.count, 1);
    assert_eq!(s.gaps.max, 0);
    assert_eq!(s.time_last, 20);
    assert_eq!(s.increment(21).gaps.max, 1);
}

#[test]
fn interval_state_apply() {
    let s = IntervalState::new();
    assert_eq!(s.apply(Op::Increment { amount: 9, now: 4 }), s.increment(4));
    assert_eq!(s.increment(4).apply(Op::Reset), s);
    assert_eq!(s.increment(4).apply(Op::Begin { now: 4 }), s.increment(4));
    assert_eq!(s.increment(4).apply(Op::SetCount { count: 4 }), s.increment(4));
}

#[test]
fn reset_it_restores_new_records() {
    let mut e = EventState { count: 9 };
    e.reset_it();
    assert_eq!(e, EventState::new());
    let mut l = ElapsedState::new().set_elapsed(4).begin(9);
    l.reset_it();
    assert_eq!(l, ElapsedState::new());
    let mut i = IntervalState::new().increment(1).increment(5);
    i.reset_it();
    assert_eq!(i, IntervalState::new());
    let mut a = AnyState::Interval(IntervalState::new().increment(1));
    a.reset_it();
    assert_eq!(a, AnyState::Interval(IntervalState::new()));
    assert_eq!(a.kind(), CounterKind::Interval);
}

#[test]
fn any_state_applies_by_kind() {
    let a = AnyState::Event(EventState::new());
    assert_eq!(a.apply(Op::Increment { amount: 2, now: 0 }), AnyState::Event(EventState { count: 2 }));
    let b = AnyState::Elapsed(ElapsedState::new());
    assert_eq!(b.apply(Op::SetElapsed { elapsed: 2 }), AnyState::Elapsed(ElapsedState::new().set_elapsed(2)));
    assert_eq!(b.kind(), CounterKind::Elapsed);
    assert_eq!(a.kind(), CounterKind::Event);
}

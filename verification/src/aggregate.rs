//! Running summary of a stream of samples: how many, their sum, their
//! extremes and the sum of their squares.
//!
//! All sums are exact integers that saturate at the top of their range. The
//! mean of the samples is `total / count`. The sum of squared deviations from
//! the mean, the accumulator of Welford's method, is `spread / count`, where
//! `spread = count * sum_sq - total * total`; `lemma_welford_step` shows that
//! these quantities obey Welford's recurrence.

use vstd::prelude::*;

verus! {

/// Weight of the high limb of the sum of squares.
pub const LIMB: u128 = 0x1_0000_0000_0000_0000;

/// `n` clamped to the range of `u64`.
pub open spec fn sat64(n: int) -> u64 {
    if n > u64::MAX {
        u64::MAX
    } else if n < 0 {
        0
    } else {
        n as u64
    }
}

/// `n` clamped to the range of `u128`.
pub open spec fn sat128(n: int) -> u128 {
    if n > u128::MAX {
        u128::MAX
    } else if n < 0 {
        0
    } else {
        n as u128
    }
}

/// Sum of the samples.
pub open spec fn total_of(s: Seq<u64>) -> int
    decreases s.len(),
{
    if s.len() == 0 {
        0
    } else {
        total_of(s.drop_last()) + s.last()
    }
}

/// Sum of the squares of the samples.
pub open spec fn squares_of(s: Seq<u64>) -> int
    decreases s.len(),
{
    if s.len() == 0 {
        0
    } else {
        squares_of(s.drop_last()) + s.last() * s.last()
    }
}

/// `m` occurs in `s` and no sample is smaller.
pub open spec fn is_least(m: u64, s: Seq<u64>) -> bool {
    &&& exists|i: int| 0 <= i < s.len() && s[i] == m
    &&& forall|i: int| 0 <= i < s.len() ==> m <= s[i]
}

/// `m` occurs in `s` and no sample is larger.
pub open spec fn is_greatest(m: u64, s: Seq<u64>) -> bool {
    &&& exists|i: int| 0 <= i < s.len() && s[i] == m
    &&& forall|i: int| 0 <= i < s.len() ==> s[i] <= m
}

/// `n` times the sum of squared deviations from the mean of `n` samples with
/// sum `t` and sum of squares `q`.
pub open spec fn spread(n: int, t: int, q: int) -> int {
    n * q - t * t
}

/// Summary of the samples seen so far. With no sample all fields are zero.
#[derive(Clone, Copy, Debug, PartialEq, Eq)]
pub struct Aggregate {
    /// Number of samples.
    pub count: u64,
    /// Sum of the samples.
    pub total: u64,
    /// Smallest sample.
    pub min: u64,
    /// Largest sample.
    pub max: u64,
    /// High limb of the sum of squares.
    pub sq_hi: u64,
    /// Low limb of the sum of squares.
    pub sq_lo: u64,
}

impl Aggregate {
    /// The summary of no samples.
    pub open spec fn spec_empty() -> Aggregate {
        Aggregate { count: 0, total: 0, min: 0, max: 0, sq_hi: 0, sq_lo: 0 }
    }

    /// Sum of the squares of the samples.
    pub open spec fn spec_sum_sq(self) -> int {
        self.sq_hi * LIMB + self.sq_lo
    }

    /// The summary after one more sample `x`.
    pub open spec fn spec_observe(self, x: u64) -> Aggregate {
        let q = sat128(self.spec_sum_sq() + x * x);
        Aggregate {
            count: sat64(self.count + 1),
            total: sat64(self.total + x),
            min: if self.count == 0 || x < self.min { x } else { self.min },
            max: if self.count == 0 || x > self.max { x } else { self.max },
            sq_hi: (q / LIMB) as u64,
            sq_lo: (q % LIMB) as u64,
        }
    }

    /// `self` is the summary of exactly the samples `s`.
    pub open spec fn summarizes(self, s: Seq<u64>) -> bool {
        &&& self.count == sat64(s.len() as int)
        &&& self.total == sat64(total_of(s))
        &&& self.spec_sum_sq() == sat128(squares_of(s))
        &&& s.len() == 0 ==> self.min == 0 && self.max == 0
        &&& s.len() > 0 ==> is_least(self.min, s) && is_greatest(self.max, s)
    }

    /// With no sample every field is zero; with one or more,
    /// `min <= max <= total`.
    pub open spec fn wf(self) -> bool {
        if self.count == 0 {
            self == Aggregate::spec_empty()
        } else {
            self.min <= self.max <= self.total
        }
    }

    /// `count` times the sum of squared deviations from the mean.
    pub open spec fn spec_spread(self) -> int {
        spread(self.count as int, self.total as int, self.spec_sum_sq())
    }

    /// The summary of no samples.
    pub fn empty() -> (r: Aggregate)
        ensures
            r == Aggregate::spec_empty(),
            r.summarizes(Seq::empty()),
            r.wf(),
    {
        Aggregate { count: 0, total: 0, min: 0, max: 0, sq_hi: 0, sq_lo: 0 }
    }

    /// Folds one more sample into the summary.
    pub fn observe(self, x: u64) -> (r: Aggregate)
        ensures
            r == self.spec_observe(x),
            r.count > 0,
            self.wf() ==> r.wf(),
    {
        assert(x * x <= u128::MAX) by (nonlinear_arith)
            requires
                0 <= x <= u64::MAX,
        ;
        let square: u128 = (x as u128) * (x as u128);
        let q: u128 = self.sum_sq().saturating_add(square);
        Aggregate {
            count: self.count.saturating_add(1),
            total: self.total.saturating_add(x),
            min: if self.count == 0 || x < self.min { x } else { self.min },
            max: if self.count == 0 || x > self.max { x } else { self.max },
            sq_hi: (q / LIMB) as u64,
            sq_lo: (q % LIMB) as u64,
        }
    }

    /// Sum of the squares of the samples.
    pub fn sum_sq(&self) -> (r: u128)
        ensures
            r == self.spec_sum_sq(),
    {
        (self.sq_hi as u128) * LIMB + (self.sq_lo as u128)
    }

    /// `count` times the sum of squared deviations from the mean. `None`
    /// where `count * sum_sq` leaves the range of `u128` or the difference
    /// would be negative, which it is for no summary whose sums have not
    /// saturated.
    pub fn spread(&self) -> (r: Option<u128>)
        ensures
            r is Some <==> self.count * self.spec_sum_sq() <= u128::MAX && 0 <= self.spec_spread(),
            r matches Some(v) ==> v == self.spec_spread(),
    {
        let t: u128 = self.total as u128;
        assert(t * t <= u128::MAX) by (nonlinear_arith)
            requires
                0 <= t <= u64::MAX,
        ;
        let tt: u128 = t * t;
        match (self.count as u128).checked_mul(self.sum_sq()) {
            Some(nq) => if nq >= tt {
                Some(nq - tt)
            } else {
                None
            },
            None => None,
        }
    }
}

/// The summary built by observing the samples of `s` in order.
pub open spec fn summary_of(s: Seq<u64>) -> Aggregate
    decreases s.len(),
{
    if s.len() == 0 {
        Aggregate::spec_empty()
    } else {
        summary_of(s.drop_last()).spec_observe(s.last())
    }
}

/// Every sample is at most the sum of all of them, and the sums are not
/// negative.
pub proof fn lemma_total_bounds(s: Seq<u64>, i: int)
    requires
        0 <= i < s.len(),
    ensures
        s[i] <= total_of(s),
        0 <= squares_of(s),
    decreases s.len(),
{
    lemma_sums_nonnegative(s.drop_last());
    if i < s.len() - 1 {
        lemma_total_bounds(s.drop_last(), i);
    }
}

/// The sum and the sum of squares of any samples are not negative.
pub proof fn lemma_sums_nonnegative(s: Seq<u64>)
    ensures
        0 <= total_of(s),
        0 <= squares_of(s),
    decreases s.len(),
{
    if s.len() > 0 {
        lemma_sums_nonnegative(s.drop_last());
    }
}

/// Observing `x` turns the summary of `s` into the summary of `s` followed
/// by `x`.
pub proof fn lemma_observe_extends(a: Aggregate, s: Seq<u64>, x: u64)
    requires
        a.summarizes(s),
    ensures
        a.spec_observe(x).summarizes(s.push(x)),
{
    let r = a.spec_observe(x);
    let t = s.push(x);
    assert(t.drop_last() =~= s);
    assert(t.last() == x);
    lemma_sums_nonnegative(s);
    assert(0 <= x * x) by (nonlinear_arith);
    let q = sat128(a.spec_sum_sq() + x * x);
    assert(r.spec_sum_sq() == q);
    assert(t[s.len() as int] == x);
    if s.len() == 0 {
        assert(is_least(r.min, t));
        assert(is_greatest(r.max, t));
    } else {
        let i = choose|i: int| 0 <= i < s.len() && s[i] == a.min;
        let j = choose|j: int| 0 <= j < s.len() && s[j] == a.max;
        assert(t[i] == a.min);
        assert(t[j] == a.max);
        assert forall|k: int| 0 <= k < t.len() implies r.min <= t[k] && t[k] <= r.max by {
            if k < s.len() {
                assert(t[k] == s[k]);
            }
        }
        assert(is_least(r.min, t));
        assert(is_greatest(r.max, t));
    }
}

/// Observing samples one by one, from nothing, gives their summary: the
/// count is their number, the total their sum, and the extremes are the
/// smallest and the largest of them.
pub proof fn lemma_summary_of_summarizes(s: Seq<u64>)
    ensures
        summary_of(s).summarizes(s),
    decreases s.len(),
{
    if s.len() > 0 {
        lemma_summary_of_summarizes(s.drop_last());
        lemma_observe_extends(summary_of(s.drop_last()), s.drop_last(), s.last());
        assert(s.drop_last().push(s.last()) =~= s);
    }
}

/// A summary of at least one sample has `min <= max <= total`, every
/// sample lies between `min` and `max`, and `total` is the exact sum of the
/// samples as long as that sum fits.
pub proof fn lemma_summary_bounds(a: Aggregate, s: Seq<u64>)
    requires
        a.summarizes(s),
        s.len() > 0,
    ensures
        a.count > 0,
        a.min <= a.max <= a.total,
        forall|i: int| 0 <= i < s.len() ==> a.min <= #[trigger] s[i] <= a.max,
        total_of(s) <= u64::MAX ==> a.total == total_of(s),
{
    let j = choose|j: int| 0 <= j < s.len() && s[j] == a.max;
    lemma_total_bounds(s, j);
    assert(a.min <= s[j]);
}

/// Welford's recurrence, cleared of its denominators. Write `m = t / n` for
/// the mean of `n >= 1` samples and `s2 = spread(n, t, q) / n` for their sum
/// of squared deviations. One more sample `x` gives the mean
/// `m' = (t + x) / (n + 1) = m + (x - m) / (n + 1)` and
/// `s2' = s2 + (x - m) * (x - m')`. Multiplied by `n * (n + 1)`, the second
/// equation is the one stated here.
pub proof fn lemma_welford_step(n: int, t: int, q: int, x: int)
    ensures
        n * spread(n + 1, t + x, q + x * x) == (n + 1) * spread(n, t, q) + (n * x - t) * (n * x
            - t),
        spread(1, x, x * x) == 0,
{
    let xx = x * x;
    let tt = t * t;
    let tx = t * x;
    let nx = n * x;
    let after = spread(n + 1, t + x, q + xx);
    let before = spread(n, t, q);
    assert(after == n * q + n * xx + q - tt - 2 * tx) by (nonlinear_arith)
        requires
            after == (n + 1) * (q + xx) - (t + x) * (t + x),
            xx == x * x,
            tt == t * t,
            tx == t * x,
    ;
    assert((nx - t) * (nx - t) == n * (n * xx) - 2 * (n * tx) + tt) by (nonlinear_arith)
        requires
            nx == n * x,
            xx == x * x,
            tt == t * t,
            tx == t * x,
    ;
    assert(n * after == n * (n * q) + n * (n * xx) + n * q - n * tt - 2 * (n * tx))
        by (nonlinear_arith)
        requires
            after == n * q + n * xx + q - tt - 2 * tx,
    ;
    assert((n + 1) * before == n * (n * q) - n * tt + n * q - tt) by (nonlinear_arith)
        requires
            before == n * q - tt,
    ;
}

/// The sum of squared deviations of any samples is not negative.
pub proof fn lemma_spread_nonnegative(s: Seq<u64>)
    ensures
        0 <= spread(s.len() as int, total_of(s), squares_of(s)),
    decreases s.len(),
{
    if s.len() > 0 {
        let p = s.drop_last();
        let n = p.len() as int;
        let x = s.last() as int;
        lemma_spread_nonnegative(p);
        lemma_welford_step(n, total_of(p), squares_of(p), x);
        let before = spread(n, total_of(p), squares_of(p));
        let after = spread(n + 1, total_of(p) + x, squares_of(p) + x * x);
        let d = n * x - total_of(p);
        if n == 0 {
            assert(total_of(p) == 0 && squares_of(p) == 0);
        } else {
            assert(after >= 0) by (nonlinear_arith)
                requires
                    n >= 1,
                    before >= 0,
                    n * after == (n + 1) * before + d * d,
            ;
        }
    }
}

/// As long as no sum has saturated, the `spread` of a summary is that of
/// its samples, and so not negative.
pub proof fn lemma_summary_spread(a: Aggregate, s: Seq<u64>)
    requires
        a.summarizes(s),
        s.len() <= u64::MAX,
        total_of(s) <= u64::MAX,
        squares_of(s) <= u128::MAX,
    ensures
        a.spec_spread() == spread(s.len() as int, total_of(s), squares_of(s)),
        0 <= a.spec_spread(),
{
    lemma_sums_nonnegative(s);
    lemma_spread_nonnegative(s);
}

} // verus!

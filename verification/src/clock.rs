//! Timestamps of a monotonic clock.
//!
//! A timestamp is a `u64` count of nanoseconds since the clock's origin. The
//! library never reads a clock itself: the caller does, and hands the
//! reading in.

use vstd::prelude::*;

verus! {

/// Nanoseconds in one second.
pub const NANOS_PER_SEC: u64 = 1_000_000_000;

/// The timestamp of a clock reading of `sec` seconds and `nsec` nanoseconds,
/// where that is a valid reading whose timestamp fits in `u64`.
pub open spec fn spec_nanoseconds(status: i32, sec: i64, nsec: i64) -> Option<u64> {
    if status == 0 && 0 <= sec && 0 <= nsec < NANOS_PER_SEC && sec * NANOS_PER_SEC + nsec
        <= u64::MAX {
        Some((sec * NANOS_PER_SEC + nsec) as u64)
    } else {
        None
    }
}

/// The time from `start` to `now`, zero where `now` lies before `start`.
pub open spec fn spec_elapsed_between(start: u64, now: u64) -> u64 {
    if now >= start {
        (now - start) as u64
    } else {
        0
    }
}

/// Turns one reading of the clock into a timestamp. `status` is what the
/// call that read the clock returned, zero for success. A failed call, a
/// negative field, a nanosecond field of a second or more and a reading
/// beyond the range of `u64` give `None`: the caller then skips the
/// operation it wanted the timestamp for.
pub fn nanoseconds(status: i32, sec: i64, nsec: i64) -> (r: Option<u64>)
    ensures
        r == spec_nanoseconds(status, sec, nsec),
{
    if status != 0 || sec < 0 || nsec < 0 || nsec >= 1_000_000_000i64 {
        return None;
    }
    match (sec as u64).checked_mul(NANOS_PER_SEC) {
        Some(whole) => whole.checked_add(nsec as u64),
        None => None,
    }
}

/// The time from `start` to `now`. A clock that stepped back gives zero,
/// never a wrapped difference.
pub fn elapsed_between(start: u64, now: u64) -> (r: u64)
    ensures
        r == spec_elapsed_between(start, now),
{
    now.saturating_sub(start)
}

} // verus!

//! Lock-free statistics counters and a registry of named counters.
//!
//! A counter is a shared cell that holds one packed record. Every operation
//! is a single atomic read-modify-write of that record, so a reader always
//! sees a count together with the extremes and sums that belong to it. The
//! records and their transitions are plain values; the cells only install them.
//!
//! Timestamps are handed in by the caller in whatever unit its clock counts;
//! `clock::nanoseconds` turns one reading of a monotonic clock into such a
//! timestamp.

pub mod aggregate;
mod cell;
pub mod clock;
pub mod counter;
pub mod registry;
pub mod state;

pub use crate::counter::{
    AnyCounter, Counter, ElapsedCounter, EventCounter, Header, IntervalCounter, Variant,
};
pub use crate::state::{
    AnyState, Commit, CounterKind, ElapsedState, EventState, IntervalState, Op, Record, Reset,
};

//! The shared cell under every counter.
//!
//! A cell holds one record and is only ever changed by replacing the whole
//! record. A record as wide as a machine word is replaced by the machine's
//! own atomic instructions; a wider one under a spin lock that the cell
//! holds for the few instructions of the copy. Nothing is said here of what
//! a cell holds at any moment: other threads may change it between any two
//! calls.

use vstd::prelude::*;
use atomic::Atomic;
use std::sync::atomic::Ordering;
use crate::state::{Op, Record};

verus! {

/// `atomic::Atomic<T>`, a value that threads share and replace as a whole.
/// Nothing inside it is visible to proofs.
#[verifier::external_type_specification]
#[verifier::external_body]
#[verifier::reject_recursive_types(T)]
pub struct ExAtomic<T>(Atomic<T>);

/// What an update by `op` puts in the place of `record`: always the record
/// after `op`.
pub(crate) fn proposal<S: Record>(record: S, op: Op) -> (next: Option<S>)
    ensures
        next == Some(record.spec_apply(op)),
{
    Some(record.apply(op))
}

/// `Atomic::new`: a cell that holds `record`. Nothing is claimed of the
/// result.
#[verifier::external_body]
pub(crate) fn cell_new<S: Record>(record: S) -> Atomic<S> {
    Atomic::new(record)
}

/// `Atomic::load`, sequentially consistent: the record that the cell holds
/// at the moment of the call. Nothing is claimed of the result.
#[verifier::external_body]
pub(crate) fn cell_load<S: Record>(cell: &Atomic<S>) -> S {
    cell.load(Ordering::SeqCst)
}

/// `Atomic::fetch_update`, sequentially consistent, with `proposal` for
/// `op` as the function. It replaces the record that the cell holds by the
/// proposal for it in one step, starting over with the newer record while
/// other threads get in between, and returns the record that it replaced.
/// Nothing is claimed of the result.
#[verifier::external_body]
pub(crate) fn cell_update<S: Record>(cell: &Atomic<S>, op: Op) -> S {
    match cell.fetch_update(Ordering::SeqCst, Ordering::SeqCst, |record| proposal(record, op)) {
        Ok(before) => before,
        Err(before) => before,
    }
}

} // verus!

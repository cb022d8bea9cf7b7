//! Error kinds of the record store.
//!
//! Every error is terminal for the operation that raised it; the host ledger
//! discards the operation's effects as a whole.

use vstd::prelude::*;

verus! {

/// Why an operation was rejected.
#[derive(Clone, Copy, Debug, PartialEq, Eq, Structural)]
pub enum ReviewError {
    /// The command buffer could not be parsed into an operation.
    MalformedInstruction,
    /// The requesting principal has not proven its authorization.
    Unauthorized,
    /// A caller-supplied slot address does not match the recomputed
    /// derivation, or the slot holds a record of another type.
    InvalidAddress,
    /// A review rating outside `1 ..= 5`.
    InvalidRating,
    /// The serialized record would not fit its slot, or a review record
    /// would exceed the fixed review-slot capacity.
    PayloadTooLarge,
    /// A referenced slot holds no initialized record.
    NotFound,
    /// The slot already holds an initialized record.
    AlreadyInitialized,
    /// The target slot's recorded owner is not this program.
    NotOwned,
    /// The ledger capability could not allocate what the operation needs;
    /// also raised when the comment id space of a review is exhausted.
    AllocationFailed,
}

} // verus!

//! Error kinds of the storage engine, and the read order of paged queries.

use vstd::prelude::*;

verus! {

/// What went wrong inside the storage engine.
#[derive(Clone, Copy, Debug, PartialEq, Eq, Structural)]
pub enum AptosDbError {
    /// A page request asked for more items than the allowed maximum:
    /// `(requested, max_allowed)`.
    TooManyRequested(u64, u64),
    /// A range was ill-formed: its start lies past its end, or its end past
    /// the latest committed data.
    BadRange,
    /// A point lookup that demands presence found nothing.
    NotFound,
    /// A Merkle proof did not verify against the expected root.
    ProofInvalid,
    /// An internal invariant does not hold of the data handed in or stored:
    /// a root or hash mismatch, a broken index, a sequence number out of
    /// order.
    Corruption,
}

impl AptosDbError {
    /// A short name for this error kind.
    pub fn name(&self) -> (r: &'static str)
    {
        match self {
            AptosDbError::TooManyRequested(_, _) => "too many requested",
            AptosDbError::BadRange => "bad range",
            AptosDbError::NotFound => "not found",
            AptosDbError::ProofInvalid => "proof invalid",
            AptosDbError::Corruption => "corruption",
        }
    }
}

/// The order in which a paged event query walks sequence numbers.
#[derive(Clone, Copy, Debug, PartialEq, Eq, Structural)]
pub enum Order {
    Ascending,
    Descending,
}

} // verus!

//! On-chain configuration values the storage layer round-trips.

use vstd::prelude::*;

verus! {

/// The version of the validator software an on-chain configuration
/// carries.
#[derive(Clone, Copy, Debug, PartialEq, Eq, PartialOrd, Ord, Hash, Structural)]
pub struct Version {
    pub major: u64,
}

} // verus!

//! The ways in which a call on a sponge is refused.

use vstd::prelude::*;

verus! {

/// Why a call was refused. A refused call leaves the sponge as it was.
#[derive(Clone, Copy, Debug, PartialEq, Eq, Structural)]
pub enum SpongeError {
    /// One batch holds more elements than a history entry can count.
    BatchTooLong,
    /// Consecutive batches of one direction add up to more than a history entry
    /// can count, so the history has no encoding.
    CountOverflow,
}

} // verus!

//! The clock collaborator: the host environment's time source, consumed
//! for identifier generation and audit timestamps.

use vstd::prelude::*;

verus! {

/// Relies on calimero_storage::env::time_now: the host environment's
/// current time as a nanosecond timestamp. Nothing is assumed of the
/// value — not even that successive calls do not repeat — so every
/// caller states what holds of each possible timestamp.
#[verifier::external_body]
pub(crate) fn time_now() -> u64 {
    calimero_storage::env::time_now()
}

} // verus!

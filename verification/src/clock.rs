//! The wall clock, read where a record needs a timestamp.

use vstd::prelude::*;

verus! {

/// Seconds since the Unix epoch, as `SystemTime::now().duration_since(UNIX_EPOCH)`
/// gives them (zero when the clock is before the epoch). Nothing is promised of the
/// value: it is the time at the call.
#[verifier::external_body]
pub(crate) fn unix_time_secs() -> u64 {
    std::time::SystemTime::now().duration_since(std::time::UNIX_EPOCH).unwrap_or_default().as_secs()
}

} // verus!

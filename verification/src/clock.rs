//! The one reading of the wall clock: the millisecond timestamp that
//! names a run's log file. Nothing can be promised of the clock's
//! value, so the caller's guarantees (distinct names for distinct
//! timestamps) are stated over the timestamp itself.

use vstd::prelude::*;

verus! {

/// Milliseconds since the Unix epoch, or zero on a clock set before
/// it. Relies on `std::time::SystemTime::now`; the duration since
/// `std::time::UNIX_EPOCH` is converted to milliseconds. The result
/// depends on the wall clock, so no contract pins it down.
#[verifier::external_body]
pub fn get_current_time_millis() -> u128 {
    std::time::SystemTime::now()
        .duration_since(std::time::UNIX_EPOCH)
        .map(|d| d.as_millis())
        .unwrap_or(0)
}

} // verus!

//! Wall-clock and monotonic time, read through std.

use vstd::prelude::*;

verus! {

#[verifier::external_type_specification]
#[verifier::external_body]
pub struct ExInstant(std::time::Instant);

/// Relies on std::time::SystemTime::now and its distance to UNIX_EPOCH:
/// the whole seconds since the epoch, or 0 when the clock reads earlier.
/// Nothing is promised of the value: it is the time now.
#[verifier::external_body]
pub fn now() -> (r: u64) {
    match std::time::SystemTime::now().duration_since(std::time::UNIX_EPOCH) {
        Ok(d) => d.as_secs(),
        Err(_) => 0,
    }
}

/// Relies on std::time::Instant::now: a reading of the monotonic clock.
#[verifier::external_body]
pub(crate) fn instant_now() -> (r: std::time::Instant) {
    std::time::Instant::now()
}

/// Relies on std::time::Instant::elapsed: the whole milliseconds since
/// `start`, whatever the clock gives.
#[verifier::external_body]
pub(crate) fn millis_since(start: &std::time::Instant) -> (r: u128) {
    start.elapsed().as_millis()
}

} // verus!

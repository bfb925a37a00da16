//! Monotonic clock readings for searches with a time limit.

use vstd::prelude::*;

verus! {

/// std's monotonic clock reading, held opaque.
#[verifier::external_type_specification]
#[verifier::external_body]
pub struct ExInstant(std::time::Instant);

/// `Instant::now`: the current reading of the monotonic clock; nothing is
/// stated of it.
#[verifier::external_body]
pub(crate) fn instant_now() -> std::time::Instant {
    std::time::Instant::now()
}

/// `Instant::elapsed`, in whole milliseconds (truncated to 64 bits): the time
/// since `start`. It depends on the clock, so nothing is stated of it.
#[verifier::external_body]
pub(crate) fn elapsed_millis(start: &std::time::Instant) -> u64 {
    start.elapsed().as_millis() as u64
}

/// `Instant::elapsed` compared with `Duration`'s `>=`: whether at least
/// `limit` has passed since `start`. It depends on the clock, so nothing is
/// stated of it.
#[verifier::external_body]
pub(crate) fn elapsed_reaches(start: &std::time::Instant, limit: &std::time::Duration) -> bool {
    start.elapsed() >= *limit
}

/// `Instant::elapsed`: the time since `start`. It depends on the clock, so
/// nothing is stated of it.
#[verifier::external_body]
pub(crate) fn elapsed_since(start: &std::time::Instant) -> std::time::Duration {
    start.elapsed()
}

} // verus!

//! Wall-clock time as milliseconds since the Unix epoch.

use vstd::prelude::*;

verus! {

/// The magnitude that no chrono timestamp in milliseconds reaches: chrono's
/// dates lie within about 262 000 years of the epoch.
pub const TIMESTAMP_BOUND: i64 = 10_000_000_000_000_000;

/// The current time in milliseconds since 1970-01-01 UTC, as the system
/// clock gives it: the time since the Unix epoch from `SystemTime::now`,
/// made a chrono `DateTime<Utc>` by `DateTime::from_timestamp` and read back
/// with `timestamp_millis` (the steps of `Utc::now`, without its panic). On a
/// clock set before 1970, or past chrono's last date, it gives 0. Only
/// chrono's range of dates is stated of it; the value depends on the clock.
#[verifier::external_body]
pub(crate) fn now_millis() -> (r: i64)
    ensures
        -TIMESTAMP_BOUND < r < TIMESTAMP_BOUND,
{
    match std::time::SystemTime::now().duration_since(std::time::UNIX_EPOCH) {
        Ok(d) => match chrono::DateTime::from_timestamp(d.as_secs() as i64, d.subsec_nanos()) {
            Some(t) => t.timestamp_millis(),
            None => 0,
        },
        Err(_) => 0,
    }
}

} // verus!

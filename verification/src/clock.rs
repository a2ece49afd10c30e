//! Reading the wall clock, and spans of time.

use vstd::prelude::*;

verus! {

/// Reads `std::time::SystemTime::now()` as nanoseconds since the Unix epoch
/// (0 for a clock set before the epoch). Nothing is promised of the value:
/// it depends on the machine's clock.
#[verifier::external_body]
pub(crate) fn unix_time_nanos() -> (t: u128) {
    std::time::SystemTime::now()
        .duration_since(std::time::UNIX_EPOCH)
        .map(|d| d.as_nanos())
        .unwrap_or(0)
}

/// Reads `chrono::Utc::now()` as microseconds since the Unix epoch.
/// Nothing is promised of the value: it depends on the machine's clock.
#[verifier::external_body]
pub(crate) fn utc_now_micros() -> (t: i64) {
    chrono::Utc::now().timestamp_micros()
}

/// The whole number of microseconds in a `std::time::Duration`
/// (what `Duration::as_micros` returns).
pub uninterp spec fn duration_micros(d: std::time::Duration) -> nat;

/// Calls `Duration::as_micros`, which returns the total number of whole
/// microseconds in `d`.
#[verifier::external_body]
pub(crate) fn duration_as_micros(d: &std::time::Duration) -> (r: u128)
    ensures
        r == duration_micros(*d),
{
    d.as_micros()
}

/// The span that `Duration::from_secs` makes of `secs` whole seconds.
pub uninterp spec fn duration_of_secs(secs: u64) -> std::time::Duration;

/// Calls `Duration::from_secs`, which makes a span of `secs` whole seconds
/// (no fraction of a second), so `secs * 1_000_000` whole microseconds.
#[verifier::external_body]
pub(crate) fn duration_from_secs(secs: u64) -> (d: std::time::Duration)
    ensures
        d == duration_of_secs(secs),
        duration_micros(d) == secs * 1_000_000,
{
    std::time::Duration::from_secs(secs)
}

} // verus!

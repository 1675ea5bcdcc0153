//! Access to the clocks: the values read here depend on the time and the
//! machine, so nothing is stated of them; the logic that uses them takes
//! the readings as plain nanosecond counts. A duration's length in
//! nanoseconds depends on the duration alone and is named.

use vstd::prelude::*;

verus! {

/// The clock type of the tokio runtime, carried opaquely.
#[verifier::external_type_specification]
#[verifier::external_body]
pub struct ExTokioInstant(tokio::time::Instant);

/// The monotonic clock type of the standard library, carried opaquely.
#[verifier::external_type_specification]
#[verifier::external_body]
pub struct ExStdInstant(std::time::Instant);

/// Calls `tokio::time::Instant::now`; the value depends on the clock and
/// nothing is stated of it.
#[verifier::external_body]
pub(crate) fn tokio_now() -> tokio::time::Instant {
    tokio::time::Instant::now()
}

/// Calls `tokio::time::Instant::elapsed`; the value depends on the clock
/// and nothing is stated of it.
#[verifier::external_body]
pub(crate) fn tokio_elapsed(epoch: &tokio::time::Instant) -> std::time::Duration {
    epoch.elapsed()
}

/// Calls `std::time::Instant::now`; the value depends on the clock and
/// nothing is stated of it.
#[verifier::external_body]
pub(crate) fn std_now() -> std::time::Instant {
    std::time::Instant::now()
}

/// Calls `std::time::Instant::elapsed`; the value depends on the clock and
/// nothing is stated of it.
#[verifier::external_body]
pub(crate) fn std_elapsed(epoch: &std::time::Instant) -> std::time::Duration {
    epoch.elapsed()
}

/// The whole number of nanoseconds a `Duration` spans, as
/// `std::time::Duration::as_nanos` returns it.
pub uninterp spec fn duration_as_nanos(d: std::time::Duration) -> u128;

/// Calls `std::time::Duration::as_nanos`, whose result depends on the
/// duration alone: the contract names it.
#[verifier::external_body]
pub(crate) fn duration_nanos(d: &std::time::Duration) -> (n: u128)
    ensures
        n == duration_as_nanos(*d),
{
    d.as_nanos()
}

} // verus!

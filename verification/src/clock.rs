//! The monotonic clock and durations, which the verified code carries
//! but does not read.
use vstd::prelude::*;

verus! {

#[verifier::external_type_specification]
#[verifier::external_body]
pub struct ExInstant(std::time::Instant);

/// `Instant::now`: the current reading of the monotonic clock.
#[verifier::external_body]
pub(crate) fn clock_now() -> std::time::Instant {
    std::time::Instant::now()
}

/// The length of a `Duration` in nanoseconds, as `Duration::as_nanos`
/// gives it: a function of the duration alone.
pub uninterp spec fn nanos_of(d: std::time::Duration) -> u128;

/// `Duration::from_secs`: a duration of `n` whole seconds, so of
/// `n * 1_000_000_000` nanoseconds.
#[verifier::external_body]
pub(crate) fn seconds(n: u64) -> (r: std::time::Duration)
    ensures
        nanos_of(r) == n * 1_000_000_000,
{
    std::time::Duration::from_secs(n)
}

/// `Duration::as_nanos`: the length of `d` in nanoseconds. A `Duration`
/// holds whole seconds in a `u64` and fewer than a billion nanoseconds
/// more, so the number stays below `(u64::MAX + 1) * 1_000_000_000`.
#[verifier::external_body]
pub(crate) fn duration_nanos(d: &std::time::Duration) -> (r: u128)
    ensures
        r == nanos_of(*d),
        r < (u64::MAX + 1) * 1_000_000_000,
{
    d.as_nanos()
}

/// `Instant::duration_since`: the time from `earlier` to `later` (zero
/// when `later` comes first). A `Duration` has no view here, so nothing
/// is promised of it.
#[verifier::external_body]
pub(crate) fn duration_between(later: &std::time::Instant, earlier: &std::time::Instant) -> std::time::Duration {
    later.duration_since(*earlier)
}

/// `Instant::elapsed`: the time since `at`, read from the clock.
#[verifier::external_body]
pub(crate) fn elapsed_since(at: &std::time::Instant) -> std::time::Duration {
    at.elapsed()
}

} // verus!

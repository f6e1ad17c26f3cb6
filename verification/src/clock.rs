//! The monotonic clock that timestamps guards and dead-guard checks.
use std::time::Duration;
use std::time::Instant;
use vstd::prelude::*;

verus! {

#[verifier::external_type_specification]
#[verifier::external_body]
pub struct ExInstant(Instant);

/// Reads the monotonic clock with `Instant::now`. Nothing is claimed of the
/// reading: it depends on the time.
#[verifier::external_body]
pub(crate) fn clock_now() -> Instant {
    Instant::now()
}

/// Measures the time since `origin` with `Instant::elapsed`. Nothing is
/// claimed of the result: it depends on the time.
#[verifier::external_body]
pub(crate) fn elapsed_since(origin: &Instant) -> Duration {
    origin.elapsed()
}

/// The whole nanoseconds of a duration, as `Duration::as_nanos` gives them.
pub uninterp spec fn duration_as_nanos(d: Duration) -> u128;

/// The whole nanoseconds of a duration, from `Duration::as_nanos`.
/// Claimed: the result is a function of the duration alone, named
/// `duration_as_nanos`.
#[verifier::external_body]
pub(crate) fn duration_nanos(d: &Duration) -> (n: u128)
    ensures
        n == duration_as_nanos(*d),
{
    d.as_nanos()
}

/// A nanosecond count saturated to `u64` (about 584 years).
pub open spec fn saturated_nanos(n: u128) -> u64 {
    if n > u64::MAX as u128 {
        u64::MAX
    } else {
        n as u64
    }
}

/// Nanoseconds elapsed since `origin`, saturated to `u64`: the saturated
/// nanoseconds of the duration that `Instant::elapsed` measured (which
/// duration that is depends on the time, and is not stated).
pub(crate) fn nanos_since(origin: &Instant) -> (r: u64)
    ensures
        exists|d: Duration| r == saturated_nanos(#[trigger] duration_as_nanos(d)),
{
    let d = elapsed_since(origin);
    let n = duration_nanos(&d);
    let r = if n > u64::MAX as u128 {
        u64::MAX
    } else {
        n as u64
    };
    assert(r == saturated_nanos(duration_as_nanos(d)));
    r
}

/// The whole seconds elapsed from `then` to `now` (both in nanoseconds on the
/// same clock), zero when `now` is earlier, as `Instant::elapsed().as_secs()`
/// gives them.
pub open spec fn elapsed_secs(now: u64, then: u64) -> int {
    if now >= then {
        (now - then) / 1_000_000_000
    } else {
        0
    }
}

/// Computes `elapsed_secs`.
pub fn elapsed_secs_between(now: u64, then: u64) -> (secs: u64)
    ensures
        secs == elapsed_secs(now, then),
{
    if now >= then {
        (now - then) / 1_000_000_000
    } else {
        0
    }
}

} // verus!

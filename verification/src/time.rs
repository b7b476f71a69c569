//! Durations and instants carried through the engine.

use std::time::{Duration, Instant};
use vstd::prelude::*;

verus! {

/// A moment on the monotonic clock, as `std` measures it.
#[verifier::external_type_specification]
#[verifier::external_body]
pub struct ExInstant(Instant);

/// The whole nanoseconds in `duration`, as `Duration::as_nanos` counts them.
pub uninterp spec fn nanos_of(duration: Duration) -> u128;

/// The span from `earlier` to `later`, as `Instant::saturating_duration_since` measures
/// it: zero when `earlier` is the later of the two.
pub uninterp spec fn span_between(later: Instant, earlier: Instant) -> Duration;

/// The nanoseconds in the longest duration, `Duration::MAX`: `u64::MAX` seconds and
/// 999,999,999 nanoseconds.
pub open spec fn max_duration_nanos() -> int {
    u64::MAX as int * 1_000_000_000 + 999_999_999
}

/// `a + b` nanoseconds, or those of the longest duration when the sum passes it.
pub open spec fn saturating_nanos(a: int, b: int) -> int {
    if a + b > max_duration_nanos() {
        max_duration_nanos()
    } else {
        a + b
    }
}

/// Calls `Duration::as_nanos`: the whole nanoseconds in `duration`, never more than
/// those of `Duration::MAX`.
#[verifier::external_body]
pub(crate) fn duration_as_nanos(duration: &Duration) -> (nanos: u128)
    ensures
        nanos == nanos_of(*duration),
        nanos <= max_duration_nanos(),
{
    duration.as_nanos()
}

/// Calls `Instant::saturating_duration_since`: the time from `earlier` to `later`, or
/// zero when `earlier` is the later of the two.
///
/// The contract names the span `span_between(*later, *earlier)`.
#[verifier::external_body]
pub(crate) fn saturating_duration_since(later: &Instant, earlier: &Instant) -> (span: Duration)
    ensures
        span == span_between(*later, *earlier),
{
    later.saturating_duration_since(*earlier)
}

/// `Duration::ZERO`: no time at all.
#[verifier::external_body]
pub(crate) fn zero_duration() -> (zero: Duration)
    ensures
        nanos_of(zero) == 0,
{
    Duration::ZERO
}

/// Calls `Duration::saturating_add`: `a + b`, or `Duration::MAX` when the sum
/// overflows.
#[verifier::external_body]
pub(crate) fn saturating_add_duration(a: Duration, b: Duration) -> (sum: Duration)
    ensures
        nanos_of(sum) == saturating_nanos(nanos_of(a) as int, nanos_of(b) as int),
{
    a.saturating_add(b)
}


/// Calls `Instant::now`: the current moment on the monotonic clock.
///
/// Nothing is promised of it: it is the time.
#[verifier::external_body]
pub(crate) fn instant_now() -> (now: Instant) {
    Instant::now()
}

/// Calls `Instant::elapsed`: the time since `start`, read from the clock now.
///
/// Nothing is promised of it: it depends on when it is called.
#[verifier::external_body]
pub(crate) fn elapsed_since(start: &Instant) -> (span: Duration) {
    start.elapsed()
}

} // verus!

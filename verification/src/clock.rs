//! The monotonic clock and durations that debouncing reads. Durations are
//! specified by their length in nanoseconds; what the clock says depends on when
//! it is asked, so nothing is stated of it beyond its type.
use vstd::prelude::*;
use std::time::{Duration, Instant};

verus! {

#[verifier::external_type_specification]
#[verifier::external_body]
pub struct ExInstant(Instant);

/// The length of a duration in nanoseconds (`Duration::as_nanos`): the model
/// that durations are specified over.
pub uninterp spec fn duration_nanos(d: Duration) -> nat;

/// `Duration::from_millis`: a duration of `ms` milliseconds.
#[verifier::external_body]
pub(crate) fn millis(ms: u64) -> (d: Duration)
    ensures
        duration_nanos(d) == ms * 1_000_000,
{
    Duration::from_millis(ms)
}

/// `Duration::from_secs`: a duration of `s` seconds.
#[verifier::external_body]
pub(crate) fn secs(s: u64) -> (d: Duration)
    ensures
        duration_nanos(d) == s * 1_000_000_000,
{
    Duration::from_secs(s)
}

/// `>=` on two durations: whether the first is at least as long as the second.
#[verifier::external_body]
pub(crate) fn at_least(a: &Duration, b: &Duration) -> (r: bool)
    ensures
        r == (duration_nanos(*a) >= duration_nanos(*b)),
{
    *a >= *b
}

/// `Instant::now`: the current time, of which nothing is stated.
#[verifier::external_body]
pub(crate) fn now() -> Instant {
    Instant::now()
}

/// `Instant::elapsed`: the time since `at`, of which nothing is stated, since it
/// depends on when it is asked.
#[verifier::external_body]
pub(crate) fn elapsed(at: &Instant) -> Duration {
    at.elapsed()
}

} // verus!

//! The monotonic clock and durations, as the scheduler and the watchers
//! read them. Instants are opaque: what the clock says is only ever asked
//! as a yes/no question about elapsed time, and every caller is verified for
//! both answers.
use vstd::prelude::*;
use std::time::{Duration, Instant};

verus! {

/// `std::time::Instant`, carried through as an opaque value.
#[verifier::external_type_specification]
#[verifier::external_body]
pub struct ExInstant(Instant);

/// `Duration` is `Copy`; its `clone` returns the same value.
pub assume_specification[ <Duration as Clone>::clone ](d: &Duration) -> (r: Duration)
    ensures
        r == *d,
;

/// `Instant::now`: the current moment. Nothing is stated of the value.
#[verifier::external_body]
pub(crate) fn now() -> Instant {
    Instant::now()
}

/// `t.elapsed() > limit`: whether more than `limit` has passed since `t`.
/// The answer depends on the clock, so nothing is stated of it.
#[verifier::external_body]
pub(crate) fn elapsed_exceeds(t: &Instant, limit: &Duration) -> bool {
    t.elapsed() > *limit
}

/// `t.elapsed() < limit`: whether less than `limit` has passed since `t`.
/// The answer depends on the clock, so nothing is stated of it.
#[verifier::external_body]
pub(crate) fn elapsed_below(t: &Instant, limit: &Duration) -> bool {
    t.elapsed() < *limit
}

/// The duration of `n` seconds (`Duration::from_secs`).
pub uninterp spec fn duration_secs(n: u64) -> Duration;

/// The duration of `n` milliseconds (`Duration::from_millis`).
pub uninterp spec fn duration_millis(n: u64) -> Duration;

/// `Duration::from_secs`: the contract names the duration of `n` seconds;
/// how a `Duration` compares is not modelled.
#[verifier::external_body]
pub(crate) fn secs(n: u64) -> (r: Duration)
    ensures
        r == duration_secs(n),
{
    Duration::from_secs(n)
}

/// `Duration::from_millis`: the contract names the duration of `n`
/// milliseconds; how a `Duration` compares is not modelled.
#[verifier::external_body]
pub(crate) fn millis(n: u64) -> (r: Duration)
    ensures
        r == duration_millis(n),
{
    Duration::from_millis(n)
}

/// `Duration::ZERO`.
#[verifier::external_body]
pub(crate) fn zero() -> Duration {
    Duration::ZERO
}

} // verus!

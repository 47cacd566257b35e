//! Time: instants and durations from `std::time`.
//!
//! Readings of the clock depend on when they are taken, so nothing is
//! promised of them. The logic that uses a reading takes it as a plain
//! number of nanoseconds ([`exceeds`], [`whole_seconds`]); durations built
//! from a number of seconds or milliseconds are named by that number, and
//! their nanoseconds are known.

use std::time::{Duration, Instant};
use vstd::prelude::*;

verus! {

/// `std::time::Instant`, carried through without looking inside.
#[verifier::external_type_specification]
#[verifier::external_body]
pub struct ExInstant(Instant);

/// The current instant (`Instant::now`). Nothing is promised of it.
#[verifier::external_body]
pub(crate) fn now() -> Instant {
    Instant::now()
}

/// The time elapsed since `since` (`Instant::elapsed`). Nothing is
/// promised of it: it depends on the clock.
#[verifier::external_body]
pub(crate) fn elapsed(since: &Instant) -> Duration {
    since.elapsed()
}

/// The duration `Duration::from_millis(ms)`.
pub uninterp spec fn duration_of_millis(ms: u64) -> Duration;

/// A duration of `ms` milliseconds (`Duration::from_millis`), named by
/// [`duration_of_millis`].
#[verifier::external_body]
pub(crate) fn duration_from_millis(ms: u64) -> (r: Duration)
    ensures
        r == duration_of_millis(ms),
{
    Duration::from_millis(ms)
}

/// The duration `Duration::from_secs(s)`.
pub uninterp spec fn duration_of_secs(s: u64) -> Duration;

/// A duration of `s` seconds (`Duration::from_secs`), named by
/// [`duration_of_secs`].
#[verifier::external_body]
pub(crate) fn duration_from_secs(s: u64) -> (r: Duration)
    ensures
        r == duration_of_secs(s),
{
    Duration::from_secs(s)
}

/// The largest number of nanoseconds a duration holds: `u64::MAX` seconds
/// and 999,999,999 nanoseconds.
pub open spec fn max_duration_nanos() -> int {
    u64::MAX as int * 1_000_000_000 + 999_999_999
}

/// The whole nanoseconds of a duration (`Duration::as_nanos`). Of a
/// duration built from milliseconds or seconds, they are that count times
/// 10^6 or 10^9; no duration holds more than `u64::MAX` seconds and
/// 999,999,999 nanoseconds. Of any other duration the count is not stated:
/// durations are carried through without looking inside.
#[verifier::external_body]
pub(crate) fn duration_nanos(d: &Duration) -> (r: u128)
    ensures
        r <= max_duration_nanos(),
        forall|ms: u64| *d == #[trigger] duration_of_millis(ms) ==> r == ms as int * 1_000_000,
        forall|s: u64| *d == #[trigger] duration_of_secs(s) ==> r == s as int * 1_000_000_000,
{
    d.as_nanos()
}

/// The nanoseconds elapsed since `since`, read from the clock (no more
/// than a duration holds).
pub(crate) fn elapsed_nanos(since: &Instant) -> (r: u128)
    ensures
        r <= max_duration_nanos(),
{
    let d = elapsed(since);
    duration_nanos(&d)
}

/// Whether a reading of `reading_nanos` is longer than a limit of
/// `limit_nanos` (the `>` of durations).
pub fn exceeds(reading_nanos: u128, limit_nanos: u128) -> (r: bool)
    ensures
        r == (reading_nanos > limit_nanos),
{
    reading_nanos > limit_nanos
}

/// The whole seconds of a reading of `nanos` nanoseconds
/// (`Duration::as_secs`).
pub fn whole_seconds(nanos: u128) -> (r: u64)
    requires
        nanos <= max_duration_nanos(),
    ensures
        r == nanos / 1_000_000_000,
{
    assert(nanos / 1_000_000_000 <= u64::MAX) by (nonlinear_arith)
        requires
            nanos <= u64::MAX as int * 1_000_000_000 + 999_999_999,
    ;
    (nanos / 1_000_000_000) as u64
}

} // verus!

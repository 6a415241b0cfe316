//! The monotonic clock.
use std::time::Instant;
use vstd::prelude::*;

verus! {

/// A point on the system's monotonic clock.
#[verifier::external_type_specification]
#[verifier::external_body]
pub struct ExInstant(std::time::Instant);

/// `std::time::Instant::now`. Nothing is claimed of the instant that
/// comes back: it depends on when the call is made.
pub assume_specification[ std::time::Instant::now ]() -> std::time::Instant;

/// Calls `std::time::Instant::elapsed` and gives the duration in
/// nanoseconds. Nothing is claimed of it: it depends on when the call is
/// made.
#[verifier::external_body]
fn nanos_since(start: &std::time::Instant) -> (ns: u128) {
    start.elapsed().as_nanos()
}

/// A stopwatch: time is told as nanoseconds since it was started.
#[derive(Debug, Clone, Copy)]
pub struct Clock {
    epoch: Instant,
}

impl Clock {
    /// Start at zero.
    pub(crate) fn start() -> Self {
        Clock { epoch: Instant::now() }
    }

    /// Nanoseconds since the start, at most `u64::MAX`.
    pub(crate) fn now(&self) -> u64 {
        capped(nanos_since(&self.epoch))
    }
}

/// A count of nanoseconds as a [`Clock`] tells it: `u64::MAX` from where
/// it no longer fits.
pub fn capped(ns: u128) -> (r: u64)
    ensures
        r == if ns <= u64::MAX {
            ns as int
        } else {
            u64::MAX as int
        },
{
    if ns > u64::MAX as u128 {
        u64::MAX
    } else {
        ns as u64
    }
}

/// The time from `then` to `now`, zero when `then` lies ahead.
pub open spec fn age(now: u64, then: u64) -> int {
    if now >= then {
        now - then
    } else {
        0
    }
}

/// [`age`] as a number.
pub fn elapsed(now: u64, then: u64) -> (r: u64)
    ensures
        r == age(now, then),
{
    if now >= then {
        now - then
    } else {
        0
    }
}

} // verus!

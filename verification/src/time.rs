//! Plain time values: spans and wall-clock instants counted in whole nanoseconds.

use vstd::prelude::*;

verus! {

/// Nanoseconds in one second.
pub const NANOS_PER_SECOND: i128 = 1_000_000_000;

/// Nanoseconds in one millisecond.
pub const NANOS_PER_MILLISECOND: i128 = 1_000_000;

/// A signed span of time, or a position on a job's own clock, in nanoseconds.
///
/// Every value is valid; the view is the nanosecond count as a mathematical
/// integer.
#[derive(Clone, Copy, Debug, PartialEq, Eq, Structural, PartialOrd, Ord, Hash)]
pub struct TimeSpan {
    pub nanos: i128,
}

impl View for TimeSpan {
    type V = int;

    open spec fn view(&self) -> int {
        self.nanos as int
    }
}

impl TimeSpan {
    /// The span of `nanos` nanoseconds.
    pub fn nanoseconds(nanos: i128) -> (span: TimeSpan)
        ensures
            span@ == nanos,
    {
        TimeSpan { nanos }
    }

    /// The span of `millis` milliseconds.
    pub fn milliseconds(millis: i64) -> (span: TimeSpan)
        ensures
            span@ == millis * 1_000_000,
    {
        let wide: i128 = millis as i128;
        TimeSpan { nanos: wide * NANOS_PER_MILLISECOND }
    }

    /// The span of `secs` seconds.
    pub fn seconds(secs: i64) -> (span: TimeSpan)
        ensures
            span@ == secs * 1_000_000_000,
    {
        let wide: i128 = secs as i128;
        TimeSpan { nanos: wide * NANOS_PER_SECOND }
    }

    /// The empty span.
    pub fn zero() -> (span: TimeSpan)
        ensures
            span@ == 0,
    {
        TimeSpan { nanos: 0 }
    }
}

/// A wall-clock instant without a time zone: whole seconds since
/// 1970-01-01 00:00:00 and the nanoseconds past that second.
///
/// `nanos` may reach into the next second: a leap second is written as the
/// second before it with `nanos` of 1_000_000_000 or more.
#[derive(Clone, Copy, Debug, PartialEq, Eq, Structural, Hash)]
pub struct Timestamp {
    pub secs: i64,
    pub nanos: u32,
}

impl View for Timestamp {
    type V = int;

    /// Nanoseconds since 1970-01-01 00:00:00.
    open spec fn view(&self) -> int {
        self.secs as int * 1_000_000_000 + self.nanos as int
    }
}

impl Timestamp {
    /// The instant `secs` seconds and `nanos` nanoseconds after the epoch.
    pub fn new(secs: i64, nanos: u32) -> (at: Timestamp)
        ensures
            at.secs == secs,
            at.nanos == nanos,
    {
        Timestamp { secs, nanos }
    }

    /// The signed span from `earlier` to `self`.
    pub fn since(&self, earlier: &Timestamp) -> (span: TimeSpan)
        ensures
            span@ == self@ - earlier@,
    {
        let a: i128 = (self.secs as i128) * NANOS_PER_SECOND + (self.nanos as i128);
        let b: i128 = (earlier.secs as i128) * NANOS_PER_SECOND + (earlier.nanos as i128);
        TimeSpan { nanos: a - b }
    }
}

} // verus!

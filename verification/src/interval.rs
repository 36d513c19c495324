//! Intervals of time: a start and an end on one clock, the start never
//! after the end.

use crate::time::TimeSpan;
use vstd::prelude::*;

verus! {

/// An interval of time from `start` up to, and not including, `end`.
///
/// Every interval has its start at or before its end.
#[derive(Debug, Clone, Copy, PartialEq, Eq, Structural, Ord, Hash)]
pub struct DurationInterval {
    start: TimeSpan,
    end: TimeSpan,
}

/// Why an interval cannot be made.
#[derive(Debug, Clone, Copy, PartialEq, Eq, Structural, Hash)]
pub enum DurationIntervalCreateError {
    /// The end lies before the start.
    StartAfterEnd,
}

/// Why an interval cannot join the others of a set.
#[derive(Debug, Clone, Copy, PartialEq, Eq, Structural)]
pub enum DurationIntervalError {
    /// The first of the set's intervals that overlaps the new one, and the
    /// new one.
    IntervalsOverlap(DurationInterval, DurationInterval),
}

/// An interval with something attached. Only the interval counts where two
/// of these are compared.
#[derive(Debug)]
pub struct DurationIntervalMetadata<T>(pub (DurationInterval, T));

impl<T: Clone> Clone for DurationIntervalMetadata<T> {
    fn clone(&self) -> (copy: DurationIntervalMetadata<T>)
        ensures
            copy.0.0 == self.0.0,
    {
        DurationIntervalMetadata((self.0.0, self.0.1.clone()))
    }
}

/// Whether two intervals, each given by its start and its end, overlap.
/// Intervals that only touch do not, and an empty interval overlaps nothing
/// that begins or ends where it stands.
pub open spec fn overlap(a: (int, int), b: (int, int)) -> bool {
    a.0 < b.1 && b.0 < a.1
}

impl View for DurationInterval {
    type V = (int, int);

    /// The start and the end.
    closed spec fn view(&self) -> (int, int) {
        (self.start@, self.end@)
    }
}

impl DurationInterval {
    /// The start is at or before the end.
    #[verifier::type_invariant]
    spec fn ordered(self) -> bool {
        self.start.nanos <= self.end.nanos
    }

    /// The interval from `start` to `end`, unless `end` lies before `start`.
    pub fn new(start: TimeSpan, end: TimeSpan) -> (made: Result<
        DurationInterval,
        DurationIntervalCreateError,
    >)
        ensures
            match made {
                Ok(interval) => start@ <= end@ && interval@ == (start@, end@),
                Err(e) => start@ > end@ && e == DurationIntervalCreateError::StartAfterEnd,
            },
    {
        if start.nanos > end.nanos {
            Err(DurationIntervalCreateError::StartAfterEnd)
        } else {
            Ok(DurationInterval { start, end })
        }
    }

    /// The interval between a pair of a start and an end, as `new` makes it.
    pub fn try_from(value: (TimeSpan, TimeSpan)) -> (made: Result<
        DurationInterval,
        DurationIntervalCreateError,
    >)
        ensures
            match made {
                Ok(interval) => value.0@ <= value.1@ && interval@ == (value.0@, value.1@),
                Err(e) => value.0@ > value.1@ && e == DurationIntervalCreateError::StartAfterEnd,
            },
    {
        Self::new(value.0, value.1)
    }

    /// The start.
    pub fn start(&self) -> (at: TimeSpan)
        ensures
            at@ == self@.0,
            self@.0 <= self@.1,
    {
        proof {
            use_type_invariant(self);
        }
        self.start
    }

    /// The end.
    pub fn end(&self) -> (at: TimeSpan)
        ensures
            at@ == self@.1,
            self@.0 <= self@.1,
    {
        proof {
            use_type_invariant(self);
        }
        self.end
    }

    /// Whether the two intervals have more than a point in common.
    pub fn overlaps_with(&self, other: &DurationInterval) -> (yes: bool)
        ensures
            yes == overlap(self@, other@),
    {
        self.start.nanos < other.end.nanos && other.start.nanos < self.end.nanos
    }

    /// The length of the interval in nanoseconds.
    pub fn length(&self) -> (nanos: u128)
        ensures
            nanos == self@.1 - self@.0,
    {
        proof {
            use_type_invariant(self);
        }
        distance(self.start.nanos, self.end.nanos)
    }
}

/// The distance from `from` up to `to`.
pub fn distance(from: i128, to: i128) -> (nanos: u128)
    requires
        from <= to,
    ensures
        nanos == to - from,
{
    if from < 0 && to >= 0 {
        let below: u128 = (-(from + 1)) as u128;
        (to as u128) + below + 1
    } else {
        (to - from) as u128
    }
}

/// Overlapping goes both ways, and intervals that only touch do not
/// overlap.
pub proof fn lemma_overlap(a: (int, int), b: (int, int))
    ensures
        overlap(a, b) == overlap(b, a),
        a.1 <= b.0 ==> !overlap(a, b),
{
}

} // verus!

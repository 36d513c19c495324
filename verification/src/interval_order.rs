//! The order of intervals: by start, and among equal starts by end.

use crate::interval::{DurationInterval, DurationIntervalMetadata};
use std::cmp::Ordering;
use vstd::prelude::*;
use vstd::std_specs::cmp::{PartialEqSpecImpl, PartialOrdSpecImpl};

verus! {

/// How two intervals, each given by its start and its end, stand to each
/// other: the earlier start comes first, and of two equal starts the earlier
/// end.
pub open spec fn interval_order(a: (int, int), b: (int, int)) -> Ordering {
    if a.0 > b.0 {
        Ordering::Greater
    } else if a.0 < b.0 {
        Ordering::Less
    } else if a.1 > b.1 {
        Ordering::Greater
    } else if a.1 < b.1 {
        Ordering::Less
    } else {
        Ordering::Equal
    }
}

/// Whether `a` comes before `b`.
pub open spec fn before(a: (int, int), b: (int, int)) -> bool {
    a.0 < b.0 || (a.0 == b.0 && a.1 < b.1)
}

/// How `a` stands to `b` in the order of intervals.
pub fn compare(a: &DurationInterval, b: &DurationInterval) -> (o: Ordering)
    ensures
        o == interval_order(a@, b@),
{
    let (this_start, this_end) = (a.start().nanos, a.end().nanos);
    let (other_start, other_end) = (b.start().nanos, b.end().nanos);
    if this_start > other_start {
        Ordering::Greater
    } else if this_start < other_start {
        Ordering::Less
    } else {
        if this_end > other_end {
            Ordering::Greater
        } else if this_end < other_end {
            Ordering::Less
        } else {
            Ordering::Equal
        }
    }
}

impl PartialOrd for DurationInterval {
    fn partial_cmp(&self, other: &DurationInterval) -> (o: Option<Ordering>) {
        Some(compare(self, other))
    }
}

impl PartialOrdSpecImpl for DurationInterval {
    open spec fn obeys_partial_cmp_spec() -> bool {
        true
    }

    open spec fn partial_cmp_spec(&self, other: &DurationInterval) -> Option<Ordering> {
        Some(interval_order(self@, other@))
    }
}

impl<T> PartialEq for DurationIntervalMetadata<T> {
    fn eq(&self, other: &DurationIntervalMetadata<T>) -> (yes: bool) {
        let a = &self.0.0;
        let b = &other.0.0;
        a.start().nanos == b.start().nanos && a.end().nanos == b.end().nanos
    }
}

impl<T> PartialEqSpecImpl for DurationIntervalMetadata<T> {
    open spec fn obeys_eq_spec() -> bool {
        true
    }

    open spec fn eq_spec(&self, other: &DurationIntervalMetadata<T>) -> bool {
        self.0.0@ == other.0.0@
    }
}

impl<T> Eq for DurationIntervalMetadata<T> {

}

impl<T> PartialOrd for DurationIntervalMetadata<T> {
    fn partial_cmp(&self, other: &DurationIntervalMetadata<T>) -> (o: Option<Ordering>) {
        Some(compare(&self.0.0, &other.0.0))
    }
}

impl<T> PartialOrdSpecImpl for DurationIntervalMetadata<T> {
    open spec fn obeys_partial_cmp_spec() -> bool {
        true
    }

    open spec fn partial_cmp_spec(&self, other: &DurationIntervalMetadata<T>) -> Option<Ordering> {
        Some(interval_order(self.0.0@, other.0.0@))
    }
}

/// The order is that of the pairs of start and end: `a` is less than `b`
/// exactly where it comes before it, and equal exactly where it is the same
/// interval.
pub proof fn lemma_order_is_lexicographic(a: (int, int), b: (int, int))
    ensures
        interval_order(a, b) == Ordering::Less <==> before(a, b),
        interval_order(a, b) == Ordering::Equal <==> a == b,
        interval_order(a, b) == Ordering::Greater <==> before(b, a),
{
}

} // verus!

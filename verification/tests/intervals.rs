#![allow(non_snake_case)]

use recording_encoder::interval::{
    distance, DurationInterval, DurationIntervalCreateError, DurationIntervalError,
    DurationIntervalMetadata,
};
use recording_encoder::interval_order::compare;
use recording_encoder::interval_set::NonOverlappingSortedDurationIntervals;
use recording_encoder::time::TimeSpan;
use std::cmp::Ordering;

fn interval(start: i64, end: i64) -> DurationInterval {
    DurationInterval::new(TimeSpan::seconds(start), TimeSpan::seconds(end)).expect("start <= end")
}

fn entry<T>(start: i64, end: i64, payload: T) -> DurationIntervalMetadata<T> {
    DurationIntervalMetadata((interval(start, end), payload))
}

fn contents<T: Clone>(set: &NonOverlappingSortedDurationIntervals<T>) -> Vec<(i128, i128, T)> {
    (0..set.len())
        .map(|i| {
            let at = set.interval_at(i);
            (at.start().nanos, at.end().nanos, set.payload_at(i).clone())
        })
        .collect()
}

const S: i128 = 1_000_000_000;

#[test]
fn DurationInterval__invariants() {
    let range = (TimeSpan::seconds(0), TimeSpan::seconds(50));
    let made = DurationInterval::new(range.0, range.1).expect("a valid interval");
    assert_eq!((made.start(), made.end()), range);
    assert_eq!(DurationInterval::new(range.0, range.1), Ok(made));
    assert_eq!(DurationInterval::try_from(range), Ok(made));

    let range = (range.1, range.0);
    assert_eq!(
        DurationInterval::new(range.0, range.1),
        Err(DurationIntervalCreateError::StartAfterEnd)
    );
    assert_eq!(DurationInterval::try_from(range), Err(DurationIntervalCreateError::StartAfterEnd));
}

#[test]
fn DurationInterval__overlaps_with() {
    let now = TimeSpan::seconds(0);
    let (plus30, plus50, plus60) =
        (TimeSpan::seconds(30), TimeSpan::seconds(50), TimeSpan::seconds(60));
    let of = |a: TimeSpan, b: TimeSpan| DurationInterval::try_from((a, b)).expect("start <= end");
    assert!(of(plus30, plus60).overlaps_with(&of(now, plus50)));
    assert!(of(now, plus50).overlaps_with(&of(plus30, plus60)));
    assert!(!of(now, plus30).overlaps_with(&of(plus50, plus60)));
    assert!(!of(now, plus50).overlaps_with(&of(plus50, plus60)));
    assert!(of(now, plus60).overlaps_with(&of(plus30, plus50)));

    assert!(!of(now, now).overlaps_with(&of(now, plus30)));
    assert!(!of(plus50, plus50).overlaps_with(&of(plus30, plus50)));
}

#[test]
fn an_empty_interval_inside_another_overlaps_it() {
    assert!(interval(5, 5).overlaps_with(&interval(0, 10)));
    assert!(interval(0, 10).overlaps_with(&interval(5, 5)));
    assert!(!interval(5, 5).overlaps_with(&interval(5, 5)));
    assert!(interval(5, 6).overlaps_with(&interval(5, 6)));
}

#[test]
fn spans_are_counted_in_nanoseconds() {
    assert_eq!(TimeSpan::seconds(50).nanos, 50 * S);
    assert_eq!(TimeSpan::seconds(-3).nanos, -3 * S);
    assert_eq!(TimeSpan::milliseconds(1500).nanos, 1_500_000_000);
    assert_eq!(TimeSpan::nanoseconds(7).nanos, 7);
    assert_eq!(TimeSpan::zero().nanos, 0);
    assert_eq!(TimeSpan::seconds(i64::MAX).nanos, i64::MAX as i128 * S);
    assert_eq!(TimeSpan::seconds(i64::MIN).nanos, i64::MIN as i128 * S);
}

#[test]
fn the_length_of_an_interval() {
    assert_eq!(interval(0, 50).length(), 50 * S as u128);
    assert_eq!(interval(-20, 30).length(), 50 * S as u128);
    assert_eq!(interval(-30, -20).length(), 10 * S as u128);
    assert_eq!(interval(7, 7).length(), 0);
    let whole = DurationInterval::new(TimeSpan::nanoseconds(i128::MIN), TimeSpan::nanoseconds(i128::MAX))
        .expect("start <= end");
    assert_eq!(whole.length(), u128::MAX);
    assert_eq!(distance(i128::MIN, i128::MIN), 0);
    assert_eq!(distance(-1, 0), 1);
    assert_eq!(distance(i128::MIN, -1), i128::MAX as u128);
    assert_eq!(distance(0, i128::MAX), i128::MAX as u128);
}

#[test]
fn intervals_are_ordered_by_start_and_then_by_end() {
    assert_eq!(compare(&interval(0, 10), &interval(1, 2)), Ordering::Less);
    assert_eq!(compare(&interval(1, 2), &interval(0, 10)), Ordering::Greater);
    assert_eq!(compare(&interval(1, 2), &interval(1, 3)), Ordering::Less);
    assert_eq!(compare(&interval(1, 3), &interval(1, 2)), Ordering::Greater);
    assert_eq!(compare(&interval(1, 3), &interval(1, 3)), Ordering::Equal);
    assert!(interval(0, 10) < interval(1, 2));
    assert!(interval(1, 3) > interval(1, 2));
    assert!(interval(1, 3) <= interval(1, 3));
    assert_eq!(interval(1, 2).partial_cmp(&interval(1, 3)), Some(Ordering::Less));
    assert_eq!(interval(1, 2).cmp(&interval(1, 3)), Ordering::Less);
    assert_eq!(interval(2, 2).cmp(&interval(1, 3)), Ordering::Greater);
    assert_eq!(interval(1, 3).cmp(&interval(1, 3)), Ordering::Equal);
}

#[test]
fn what_is_attached_does_not_count_in_comparisons() {
    assert!(entry(1, 2, "a") == entry(1, 2, "b"));
    assert!(entry(1, 2, "a") != entry(1, 3, "a"));
    assert!(entry(1, 2, "z") < entry(1, 3, "a"));
    assert_eq!(entry(4, 5, 0).partial_cmp(&entry(1, 9, 1)), Some(Ordering::Greater));
    assert_eq!(entry(4, 5, 0).partial_cmp(&entry(4, 5, 1)), Some(Ordering::Equal));
    let copy = entry(4, 5, "x".to_string()).clone();
    assert_eq!(copy.0, (interval(4, 5), "x".to_string()));
}

#[test]
fn a_new_set_is_empty() {
    let set: NonOverlappingSortedDurationIntervals<u8> = NonOverlappingSortedDurationIntervals::new();
    assert_eq!(set.len(), 0);
    assert!(set.is_empty());
    assert_eq!(set.total_length(), None);
}

#[test]
fn inserted_intervals_stand_in_order() {
    let mut set = NonOverlappingSortedDurationIntervals::new();
    assert_eq!(set.try_insert(entry(30, 40, "c")), Ok(()));
    assert_eq!(set.try_insert(entry(0, 10, "a")), Ok(()));
    assert_eq!(set.try_insert(entry(10, 30, "b")), Ok(()));
    assert_eq!(set.try_insert(entry(50, 60, "d")), Ok(()));
    assert!(!set.is_empty());
    assert_eq!(
        contents(&set),
        vec![
            (0, 10 * S, "a"),
            (10 * S, 30 * S, "b"),
            (30 * S, 40 * S, "c"),
            (50 * S, 60 * S, "d"),
        ]
    );
    assert_eq!(set.total_length(), Some(50 * S as u128));
}

#[test]
fn an_overlapping_interval_is_rejected_and_changes_nothing() {
    let mut set = NonOverlappingSortedDurationIntervals::new();
    set.extend(vec![entry(20, 30, 2), entry(0, 10, 1), entry(40, 50, 3)]).expect("disjoint");
    let before = contents(&set);

    assert_eq!(
        set.try_insert(entry(5, 45, 9)),
        Err(DurationIntervalError::IntervalsOverlap(interval(0, 10), interval(5, 45)))
    );
    assert_eq!(contents(&set), before);
    assert_eq!(
        set.try_insert(entry(25, 100, 9)),
        Err(DurationIntervalError::IntervalsOverlap(interval(20, 30), interval(25, 100)))
    );
    assert_eq!(
        set.try_insert(entry(45, 45, 9)),
        Err(DurationIntervalError::IntervalsOverlap(interval(40, 50), interval(45, 45)))
    );
    assert_eq!(
        set.try_insert(entry(20, 30, 9)),
        Err(DurationIntervalError::IntervalsOverlap(interval(20, 30), interval(20, 30)))
    );
    assert_eq!(contents(&set), before);

    assert_eq!(set.try_insert(entry(10, 20, 9)), Ok(()));
    assert_eq!(set.try_insert(entry(30, 30, 8)), Ok(()));
    assert_eq!(
        contents(&set),
        vec![
            (0, 10 * S, 1),
            (10 * S, 20 * S, 9),
            (20 * S, 30 * S, 2),
            (30 * S, 30 * S, 8),
            (40 * S, 50 * S, 3),
        ]
    );
}

#[test]
fn no_two_intervals_of_a_set_overlap() {
    let mut set = NonOverlappingSortedDurationIntervals::new();
    let mut n = 0;
    for start in [50, 7, 7, 93, 20, 21, 0, 64, 33, 5, 99, 12, 80, 41, 60, 8] {
        for length in [0, 3, 11] {
            n += 1;
            let _ = set.try_insert(entry(start, start + length, n));
        }
    }
    let all = contents(&set);
    assert!(all.len() > 8);
    for (i, a) in all.iter().enumerate() {
        assert!(a.0 <= a.1);
        for b in &all[i + 1..] {
            assert!(!(a.0 < b.1 && b.0 < a.1), "{a:?} overlaps {b:?}");
            assert!((a.0, a.1) < (b.0, b.1), "{a:?} is not before {b:?}");
        }
    }
}

#[test]
fn an_empty_interval_is_held_once() {
    let mut set = NonOverlappingSortedDurationIntervals::new();
    assert_eq!(set.try_insert(entry(5, 5, "first")), Ok(()));
    assert_eq!(set.try_insert(entry(5, 9, "longer")), Ok(()));
    assert_eq!(set.try_insert(entry(5, 5, "second")), Ok(()));
    assert_eq!(set.try_insert(entry(0, 5, "before")), Ok(()));
    assert_eq!(
        contents(&set),
        vec![(0, 5 * S, "before"), (5 * S, 5 * S, "second"), (5 * S, 9 * S, "longer")]
    );
    assert_eq!(set.total_length(), Some(9 * S as u128));
}

#[test]
fn extending_stops_at_the_first_conflict() {
    let mut set = NonOverlappingSortedDurationIntervals::new();
    assert_eq!(
        set.extend(vec![
            entry(0, 10, 'a'),
            entry(20, 30, 'b'),
            entry(25, 35, 'c'),
            entry(40, 50, 'd'),
        ]),
        Err(DurationIntervalError::IntervalsOverlap(interval(20, 30), interval(25, 35)))
    );
    assert_eq!(contents(&set), vec![(0, 10 * S, 'a'), (20 * S, 30 * S, 'b')]);
    assert_eq!(set.extend(Vec::new()), Ok(()));
    assert_eq!(set.extend(vec![entry(40, 50, 'd'), entry(10, 20, 'e')]), Ok(()));
    assert_eq!(
        contents(&set),
        vec![(0, 10 * S, 'a'), (10 * S, 20 * S, 'e'), (20 * S, 30 * S, 'b'), (40 * S, 50 * S, 'd')]
    );
}

#[test]
fn no_intervals_is_not_intervals_of_no_length() {
    let mut set = NonOverlappingSortedDurationIntervals::new();
    assert_eq!(set.total_length(), None);
    set.try_insert(entry(3, 3, ())).expect("nothing to overlap");
    assert_eq!(set.total_length(), Some(0));
    set.try_insert(entry(-8, -2, ())).expect("nothing to overlap");
    assert_eq!(set.total_length(), Some(6 * S as u128));
}

#[test]
fn the_total_of_the_widest_set_fits() {
    let mut set = NonOverlappingSortedDurationIntervals::new();
    let bound = |start: i128, end: i128| {
        DurationIntervalMetadata((
            DurationInterval::new(TimeSpan::nanoseconds(start), TimeSpan::nanoseconds(end))
                .expect("start <= end"),
            (),
        ))
    };
    set.try_insert(bound(0, i128::MAX)).expect("nothing to overlap");
    set.try_insert(bound(i128::MIN, 0)).expect("they only touch");
    assert_eq!(set.total_length(), Some(u128::MAX));
}

//! Sets of intervals of which no two overlap, kept in order.
//!
//! The intervals are held in a `sorted_vec::SortedSet`, each as the pair of
//! its start and its end in nanoseconds; what is attached to an interval is
//! held beside it, at the same position.

use crate::interval::{
    distance, overlap, DurationInterval, DurationIntervalError, DurationIntervalMetadata,
};
use crate::time::TimeSpan;
use sorted_vec::SortedSet;
use vstd::prelude::*;

verus! {

/// `sorted_vec::SortedSet`: a vector kept in ascending order, without
/// duplicates. What it holds is told by `set_items` alone.
#[verifier::external_type_specification]
#[verifier::external_body]
#[verifier::reject_recursive_types(T)]
pub struct ExSortedSet<T: Ord>(SortedSet<T>);

/// What a sorted set holds, from the least to the greatest.
pub uninterp spec fn set_items(set: SortedSet<(i128, i128)>) -> Seq<(i128, i128)>;

/// Whether the pair `a` is less than the pair `b`: by the first number, and
/// among equal first numbers by the second.
pub open spec fn pair_less(a: (i128, i128), b: (i128, i128)) -> bool {
    a.0 < b.0 || (a.0 == b.0 && a.1 < b.1)
}

/// Whether each pair of `s` is less than all that follow it.
pub open spec fn ascending(s: Seq<(i128, i128)>) -> bool {
    forall|i: int, j: int| 0 <= i < j < s.len() ==> pair_less(#[trigger] s[i], #[trigger] s[j])
}

/// Makes an empty set with `SortedSet::new`.
///
/// Trusted: the new set holds nothing.
#[verifier::external_body]
fn keys_new() -> (set: SortedSet<(i128, i128)>)
    ensures
        set_items(set) == Seq::<(i128, i128)>::empty(),
{
    SortedSet::new()
}

/// Puts `item` into the set with `SortedSet::push`.
///
/// Trusted, of a set in ascending order: the set stays in ascending order and
/// holds `item` at the index handed back. Where the set held `item` already,
/// the old one is handed back and the set holds what it held; else `item`
/// was inserted at that index.
#[verifier::external_body]
fn keys_push(set: &mut SortedSet<(i128, i128)>, item: (i128, i128)) -> (placed: (
    usize,
    Option<(i128, i128)>,
))
    requires
        ascending(set_items(*old(set))),
    ensures
        ascending(set_items(*final(set))),
        placed.0 <= set_items(*old(set)).len(),
        placed.0 < set_items(*final(set)).len(),
        set_items(*final(set))[placed.0 as int] == item,
        placed.1 is Some <==> set_items(*old(set)).contains(item),
        placed.1 matches Some(previous) ==> previous == item && set_items(*final(set))
            == set_items(*old(set)),
        placed.1 is None ==> set_items(*final(set)) == set_items(*old(set)).insert(
            placed.0 as int,
            item,
        ),
{
    set.push(item)
}

/// The number of items, by `Vec::len` on what the set dereferences to.
///
/// Trusted: it is the length of what the set holds.
#[verifier::external_body]
fn keys_len(set: &SortedSet<(i128, i128)>) -> (n: usize)
    ensures
        n == set_items(*set).len(),
{
    set.len()
}

/// The item at `index`, by indexing what the set dereferences to.
///
/// Trusted: it is the item that the set holds there.
#[verifier::external_body]
fn keys_get(set: &SortedSet<(i128, i128)>, index: usize) -> (item: (i128, i128))
    requires
        index < set_items(*set).len(),
    ensures
        item == set_items(*set)[index as int],
{
    set[index]
}

/// The pair as a start and an end.
pub open spec fn as_bounds(pair: (i128, i128)) -> (int, int) {
    (pair.0 as int, pair.1 as int)
}

/// The pairs as intervals.
pub open spec fn bounds_of(pairs: Seq<(i128, i128)>) -> Seq<(int, int)> {
    Seq::new(pairs.len(), |i: int| as_bounds(pairs[i]))
}

/// Whether each interval has its start at or before its end.
pub open spec fn well_ordered(s: Seq<(int, int)>) -> bool {
    forall|i: int| 0 <= i < s.len() ==> (#[trigger] s[i]).0 <= s[i].1
}

/// Whether each interval comes before all that follow it: by start, and
/// among equal starts by end.
pub open spec fn sorted(s: Seq<(int, int)>) -> bool {
    forall|i: int, j: int|
        0 <= i < j < s.len() ==> (#[trigger] s[i]).0 < (#[trigger] s[j]).0 || (s[i].0 == s[j].0
            && s[i].1 < s[j].1)
}

/// Whether no two intervals overlap.
pub open spec fn disjoint(s: Seq<(int, int)>) -> bool {
    forall|i: int, j: int|
        0 <= i < s.len() && 0 <= j < s.len() && i != j ==> !overlap(#[trigger] s[i], #[trigger] s[j])
}

/// The index of the first interval of `s` that overlaps `x`, or the length
/// of `s` where none does.
pub open spec fn first_overlap(s: Seq<(int, int)>, x: (int, int)) -> int
    decreases s.len(),
{
    if s.len() == 0 || overlap(s[0], x) {
        0
    } else {
        1 + first_overlap(s.drop_first(), x)
    }
}

/// The number of intervals at the beginning of `s` that come before `x`:
/// the place of `x` among them where `s` is sorted.
pub open spec fn rank(s: Seq<(int, int)>, x: (int, int)) -> int
    decreases s.len(),
{
    if s.len() == 0 || !(s[0].0 < x.0 || (s[0].0 == x.0 && s[0].1 < x.1)) {
        0
    } else {
        1 + rank(s.drop_first(), x)
    }
}

/// The sum of the lengths of the intervals.
pub open spec fn total(s: Seq<(int, int)>) -> int
    decreases s.len(),
{
    if s.len() == 0 {
        0
    } else {
        total(s.drop_last()) + (s.last().1 - s.last().0)
    }
}

/// A set as its intervals, in order, and what is attached to each.
pub struct IntervalsView<T> {
    pub intervals: Seq<(int, int)>,
    pub payloads: Seq<T>,
}

/// The set with the interval `x` in its place in the order, and `payload`
/// attached to it. An interval that the set holds already is not held
/// twice: what is attached to it is replaced.
pub open spec fn placed<T>(set: IntervalsView<T>, x: (int, int), payload: T) -> IntervalsView<T> {
    let place = rank(set.intervals, x);
    if place < set.intervals.len() && set.intervals[place] == x {
        IntervalsView { intervals: set.intervals, payloads: set.payloads.update(place, payload) }
    } else {
        IntervalsView {
            intervals: set.intervals.insert(place, x),
            payloads: set.payloads.insert(place, payload),
        }
    }
}

/// What inserting the interval `x` with `payload` makes of a set.
///
/// Where an interval of the set overlaps `x`, nothing is inserted, and the
/// first such interval is named. Else `x` takes its place in the order.
pub open spec fn inserted<T>(set: IntervalsView<T>, x: (int, int), payload: T) -> Result<
    IntervalsView<T>,
    ((int, int), (int, int)),
> {
    let hit = first_overlap(set.intervals, x);
    if hit < set.intervals.len() {
        Err((set.intervals[hit], x))
    } else {
        Ok(placed(set, x, payload))
    }
}

/// What inserting `items` one after the other makes of a set, and the
/// failure of the first that could not be inserted. Those before it stay
/// inserted, and none after it is looked at.
pub open spec fn inserted_all<T>(set: IntervalsView<T>, items: Seq<((int, int), T)>) -> (
    IntervalsView<T>,
    Option<((int, int), (int, int))>,
)
    decreases items.len(),
{
    if items.len() == 0 {
        (set, None)
    } else {
        match inserted(set, items[0].0, items[0].1) {
            Err(conflict) => (set, Some(conflict)),
            Ok(next) => inserted_all(next, items.drop_first()),
        }
    }
}

/// `first_overlap` is in range, nothing before it overlaps `x`, and what
/// stands at it does.
pub proof fn lemma_first_overlap(s: Seq<(int, int)>, x: (int, int))
    ensures
        0 <= first_overlap(s, x) <= s.len(),
        forall|i: int| 0 <= i < first_overlap(s, x) ==> !overlap(#[trigger] s[i], x),
        first_overlap(s, x) < s.len() ==> overlap(s[first_overlap(s, x)], x),
    decreases s.len(),
{
    if s.len() == 0 || overlap(s[0], x) {
    } else {
        let rest = s.drop_first();
        lemma_first_overlap(rest, x);
        assert forall|i: int| 0 <= i < first_overlap(s, x) implies !overlap(#[trigger] s[i], x) by {
            if i > 0 {
                assert(s[i] == rest[i - 1]);
            }
        }
        if first_overlap(s, x) < s.len() {
            assert(s[first_overlap(s, x)] == rest[first_overlap(rest, x)]);
        }
    }
}

/// An index before which nothing overlaps `x`, and at which something does
/// or the set ends, is the first overlap.
pub proof fn lemma_first_overlap_is(s: Seq<(int, int)>, x: (int, int), p: int)
    requires
        0 <= p <= s.len(),
        forall|i: int| 0 <= i < p ==> !overlap(#[trigger] s[i], x),
        p < s.len() ==> overlap(s[p], x),
    ensures
        first_overlap(s, x) == p,
{
    lemma_first_overlap(s, x);
    let q = first_overlap(s, x);
    if q < p {
        assert(!overlap(s[q], x));
    } else if p < q {
        assert(!overlap(s[p], x));
    }
}

/// The rank of `x` is in range, every interval before it comes before `x`,
/// and the interval at it does not.
pub proof fn lemma_rank(s: Seq<(int, int)>, x: (int, int))
    ensures
        0 <= rank(s, x) <= s.len(),
        forall|i: int|
            0 <= i < rank(s, x) ==> (#[trigger] s[i]).0 < x.0 || (s[i].0 == x.0 && s[i].1 < x.1),
        rank(s, x) < s.len() ==> !(s[rank(s, x)].0 < x.0 || (s[rank(s, x)].0 == x.0 && s[rank(
            s,
            x,
        )].1 < x.1)),
    decreases s.len(),
{
    if s.len() == 0 || !(s[0].0 < x.0 || (s[0].0 == x.0 && s[0].1 < x.1)) {
    } else {
        let rest = s.drop_first();
        lemma_rank(rest, x);
        assert forall|i: int| 0 <= i < rank(s, x) implies (#[trigger] s[i]).0 < x.0 || (s[i].0
            == x.0 && s[i].1 < x.1) by {
            if i > 0 {
                assert(s[i] == rest[i - 1]);
            }
        }
        if rank(s, x) < s.len() {
            assert(s[rank(s, x)] == rest[rank(rest, x)]);
        }
    }
}

/// Inserting keeps a set in order and free of overlaps, and a failed insert
/// names an interval of the set that overlaps the new one.
///
/// Where the set is sorted, its intervals have their starts at or before
/// their ends and no two of them overlap, the same holds after an interval
/// with its start at or before its end has been inserted, and the set holds
/// that interval then.
pub proof fn lemma_inserted_keeps_order<T>(set: IntervalsView<T>, x: (int, int), payload: T)
    requires
        set.intervals.len() == set.payloads.len(),
        well_ordered(set.intervals),
        sorted(set.intervals),
        disjoint(set.intervals),
        x.0 <= x.1,
    ensures
        match inserted(set, x, payload) {
            Ok(next) => {
                &&& next.intervals.len() == next.payloads.len()
                &&& well_ordered(next.intervals)
                &&& sorted(next.intervals)
                &&& disjoint(next.intervals)
                &&& next.intervals.contains(x)
                &&& forall|i: int|
                    0 <= i < next.intervals.len() ==> (#[trigger] next.intervals[i]) == x
                        || set.intervals.contains(next.intervals[i])
            },
            Err((existing, new)) => {
                &&& set.intervals.contains(existing)
                &&& overlap(existing, x)
                &&& new == x
            },
        },
{
    let s = set.intervals;
    let hit = first_overlap(s, x);
    let place = rank(s, x);
    lemma_first_overlap(s, x);
    lemma_rank(s, x);
    if hit < s.len() {
    } else if place < s.len() && s[place] == x {
    } else {
        let t = s.insert(place, x);
        assert(t[place] == x);
        assert forall|i: int| 0 <= i < t.len() implies (#[trigger] t[i]) == x || s.contains(
            t[i],
        ) by {
            if i < place {
                assert(t[i] == s[i]);
            } else if i > place {
                assert(t[i] == s[i - 1]);
            }
        }
        assert forall|i: int| 0 <= i < t.len() implies (#[trigger] t[i]).0 <= t[i].1 by {
            if i < place {
                assert(t[i] == s[i]);
            } else if i > place {
                assert(t[i] == s[i - 1]);
            }
        }
        assert forall|i: int, j: int| 0 <= i < j < t.len() implies (#[trigger] t[i]).0 < (
        #[trigger] t[j]).0 || (t[i].0 == t[j].0 && t[i].1 < t[j].1) by {
            if j < place {
                assert(t[i] == s[i] && t[j] == s[j]);
            } else if j == place {
                assert(t[i] == s[i]);
            } else if i == place {
                assert(t[j] == s[j - 1]);
                assert(s[place] != x);
                if j - 1 > place {
                    assert(s[place].0 < s[j - 1].0 || (s[place].0 == s[j - 1].0 && s[place].1
                        < s[j - 1].1));
                }
            } else if i < place {
                assert(t[i] == s[i] && t[j] == s[j - 1]);
            } else {
                assert(t[i] == s[i - 1] && t[j] == s[j - 1]);
            }
        }
        assert forall|i: int, j: int|
            0 <= i < t.len() && 0 <= j < t.len() && i != j implies !overlap(
            #[trigger] t[i],
            #[trigger] t[j],
        ) by {
            let back = |k: int|
                if k < place {
                    k
                } else {
                    k - 1
                };
            if i != place {
                assert(t[i] == s[back(i)]);
            }
            if j != place {
                assert(t[j] == s[back(j)]);
            }
        }
    }
}

/// An index before which everything comes before `x`, and at which
/// something does not or the set ends, is the rank of `x`.
pub proof fn lemma_rank_is(s: Seq<(int, int)>, x: (int, int), p: int)
    requires
        0 <= p <= s.len(),
        forall|i: int|
            0 <= i < p ==> (#[trigger] s[i]).0 < x.0 || (s[i].0 == x.0 && s[i].1 < x.1),
        p < s.len() ==> !(s[p].0 < x.0 || (s[p].0 == x.0 && s[p].1 < x.1)),
    ensures
        rank(s, x) == p,
    decreases s.len(),
{
    if p == 0 {
    } else {
        let rest = s.drop_first();
        assert(s[0].0 < x.0 || (s[0].0 == x.0 && s[0].1 < x.1));
        assert forall|i: int| 0 <= i < p - 1 implies (#[trigger] rest[i]).0 < x.0 || (rest[i].0
            == x.0 && rest[i].1 < x.1) by {
            assert(rest[i] == s[i + 1]);
        }
        if p - 1 < rest.len() {
            assert(rest[p - 1] == s[p]);
        }
        lemma_rank_is(rest, x, p - 1);
    }
}

/// In a sorted set of intervals of which no two overlap, each interval ends
/// at or before the start of the next.
pub proof fn lemma_chained(s: Seq<(int, int)>, i: int, j: int)
    requires
        well_ordered(s),
        sorted(s),
        disjoint(s),
        0 <= i < j < s.len(),
    ensures
        s[i].1 <= s[j].0,
{
    assert(!overlap(s[i], s[j]));
    assert(s[i].0 <= s[i].1);
    assert(s[j].0 <= s[j].1);
}

/// The intervals of such a set lie side by side between the start of the
/// first and the end of the last: their lengths sum to no more than that.
pub proof fn lemma_total_bounded(s: Seq<(int, int)>)
    requires
        well_ordered(s),
        sorted(s),
        disjoint(s),
        s.len() > 0,
    ensures
        0 <= total(s) <= s.last().1 - s[0].0,
    decreases s.len(),
{
    let front = s.drop_last();
    if front.len() == 0 {
        assert(total(front) == 0);
        assert(s.last() == s[0]);
    } else {
        assert forall|i: int| 0 <= i < front.len() implies (#[trigger] front[i]).0
            <= front[i].1 by {
            assert(front[i] == s[i]);
        }
        assert forall|i: int, j: int| 0 <= i < j < front.len() implies (#[trigger] front[i]).0 < (
        #[trigger] front[j]).0 || (front[i].0 == front[j].0 && front[i].1 < front[j].1) by {
            assert(front[i] == s[i] && front[j] == s[j]);
        }
        assert forall|i: int, j: int|
            0 <= i < front.len() && 0 <= j < front.len() && i != j implies !overlap(
            #[trigger] front[i],
            #[trigger] front[j],
        ) by {
            assert(front[i] == s[i] && front[j] == s[j]);
        }
        lemma_total_bounded(front);
        lemma_chained(s, s.len() - 2, s.len() - 1);
        assert(front.last() == s[s.len() - 2]);
        assert(front[0] == s[0]);
    }
}

/// Whatever intervals are inserted one after the other, and whichever of
/// them are rejected, the set stays in order and free of overlaps.
pub proof fn lemma_inserted_all_keeps_order<T>(set: IntervalsView<T>, items: Seq<((int, int), T)>)
    requires
        set.intervals.len() == set.payloads.len(),
        well_ordered(set.intervals),
        sorted(set.intervals),
        disjoint(set.intervals),
        forall|i: int| 0 <= i < items.len() ==> (#[trigger] items[i]).0.0 <= items[i].0.1,
    ensures
        inserted_all(set, items).0.intervals.len() == inserted_all(set, items).0.payloads.len(),
        well_ordered(inserted_all(set, items).0.intervals),
        sorted(inserted_all(set, items).0.intervals),
        disjoint(inserted_all(set, items).0.intervals),
    decreases items.len(),
{
    if items.len() > 0 {
        lemma_inserted_keeps_order(set, items[0].0, items[0].1);
        match inserted(set, items[0].0, items[0].1) {
            Err(_) => {},
            Ok(next) => {
                let rest = items.drop_first();
                assert forall|i: int| 0 <= i < rest.len() implies (#[trigger] rest[i]).0.0
                    <= rest[i].0.1 by {
                    assert(rest[i] == items[i + 1]);
                }
                lemma_inserted_all_keeps_order(next, rest);
            },
        }
    }
}

/// A set of intervals, of which no two overlap, in ascending order, each
/// with something of type `T` attached.
pub struct NonOverlappingSortedDurationIntervals<T> {
    keys: SortedSet<(i128, i128)>,
    payloads: Vec<T>,
}

impl<T> View for NonOverlappingSortedDurationIntervals<T> {
    type V = IntervalsView<T>;

    closed spec fn view(&self) -> IntervalsView<T> {
        IntervalsView {
            intervals: bounds_of(set_items(self.keys)),
            payloads: self.payloads@,
        }
    }
}

impl<T> NonOverlappingSortedDurationIntervals<T> {
    /// Whether the set is what every set made by `new` and changed by
    /// `try_insert` and `extend` is: something is attached to each interval,
    /// each interval has its start at or before its end, the intervals stand
    /// in order, and no two of them overlap.
    pub closed spec fn wf(&self) -> bool {
        &&& ascending(set_items(self.keys))
        &&& self@.intervals.len() == self@.payloads.len()
        &&& well_ordered(self@.intervals)
        &&& sorted(self@.intervals)
        &&& disjoint(self@.intervals)
    }

    /// What `wf` says, for those who cannot look into the set.
    pub proof fn lemma_wf(&self)
        requires
            self.wf(),
        ensures
            self@.intervals.len() == self@.payloads.len(),
            well_ordered(self@.intervals),
            sorted(self@.intervals),
            disjoint(self@.intervals),
    {
    }

    /// The empty set.
    pub fn new() -> (set: Self)
        ensures
            set.wf(),
            set@.intervals == Seq::<(int, int)>::empty(),
            set@.payloads == Seq::<T>::empty(),
    {
        let set = NonOverlappingSortedDurationIntervals { keys: keys_new(), payloads: Vec::new() };
        proof {
            assert(set@.intervals =~= Seq::<(int, int)>::empty());
        }
        set
    }

    /// The number of intervals.
    pub fn len(&self) -> (n: usize)
        ensures
            n == self@.intervals.len(),
    {
        keys_len(&self.keys)
    }

    /// Whether the set holds no interval.
    pub fn is_empty(&self) -> (yes: bool)
        ensures
            yes == (self@.intervals.len() == 0),
    {
        keys_len(&self.keys) == 0
    }

    /// The interval at `index`, counted from the least.
    pub fn interval_at(&self, index: usize) -> (interval: DurationInterval)
        requires
            self.wf(),
            index < self@.intervals.len(),
        ensures
            interval@ == self@.intervals[index as int],
    {
        let pair = keys_get(&self.keys, index);
        proof {
            assert(self@.intervals[index as int] == as_bounds(set_items(self.keys)[index as int]));
            assert(self@.intervals[index as int].0 <= self@.intervals[index as int].1);
        }
        match DurationInterval::new(TimeSpan { nanos: pair.0 }, TimeSpan { nanos: pair.1 }) {
            Ok(interval) => interval,
            Err(_) => unreached(),
        }
    }

    /// What is attached to the interval at `index`.
    pub fn payload_at(&self, index: usize) -> (payload: &T)
        requires
            self.wf(),
            index < self@.intervals.len(),
        ensures
            *payload == self@.payloads[index as int],
    {
        &self.payloads[index]
    }

    /// Inserts an interval, with what is attached to it, unless it overlaps
    /// an interval of the set.
    ///
    /// On failure the set is what it was, and the error names the first
    /// interval of the set that overlaps the new one.
    pub fn try_insert(&mut self, value: DurationIntervalMetadata<T>) -> (r: Result<
        (),
        DurationIntervalError,
    >)
        requires
            old(self).wf(),
        ensures
            final(self).wf(),
            match r {
                Ok(()) => inserted(old(self)@, value.0.0@, value.0.1) == Ok::<
                    _,
                    ((int, int), (int, int)),
                >(final(self)@),
                Err(DurationIntervalError::IntervalsOverlap(existing, new)) => {
                    &&& inserted(old(self)@, value.0.0@, value.0.1) == Err::<IntervalsView<T>, _>(
                        (existing@, new@),
                    )
                    &&& final(self)@ == old(self)@
                },
            },
    {
        let DurationIntervalMetadata((interval, payload)) = value;
        let start = interval.start();
        let end = interval.end();
        let ghost x = interval@;
        let ghost before = self@;
        let ghost old_keys = set_items(self.keys);
        let n = keys_len(&self.keys);
        let mut i: usize = 0;
        while i < n
            invariant
                self.wf(),
                self@ == before,
                old_keys == set_items(self.keys),
                n == old_keys.len(),
                before.intervals.len() == n,
                before == old(self)@,
                i <= n,
                x == (start@, end@),
                x == value.0.0@,
                payload == value.0.1,
                interval@ == x,
                forall|j: int| 0 <= j < i ==> !overlap(#[trigger] before.intervals[j], x),
            decreases n - i,
        {
            let pair = keys_get(&self.keys, i);
            proof {
                assert(before.intervals[i as int] == as_bounds(old_keys[i as int]));
            }
            if pair.0 < end.nanos && start.nanos < pair.1 {
                proof {
                    lemma_first_overlap_is(before.intervals, x, i as int);
                    assert(before.intervals[i as int].0 <= before.intervals[i as int].1);
                }
                let existing = match DurationInterval::new(
                    TimeSpan { nanos: pair.0 },
                    TimeSpan { nanos: pair.1 },
                ) {
                    Ok(existing) => existing,
                    Err(_) => unreached(),
                };
                return Err(DurationIntervalError::IntervalsOverlap(existing, interval));
            }
            i = i + 1;
        }
        proof {
            lemma_first_overlap_is(before.intervals, x, n as int);
        }
        let item = (start.nanos, end.nanos);
        let placed = keys_push(&mut self.keys, item);
        let ghost new_keys = set_items(self.keys);
        let at = placed.0;
        proof {
            assert(as_bounds(item) == x);
            assert(before.intervals.len() == old_keys.len());
            assert(self@.intervals.len() == new_keys.len());
            if placed.1 is None {
                assert(new_keys.len() == old_keys.len() + 1);
            } else {
                assert(new_keys == old_keys);
            }
            assert(at <= old_keys.len());
            assert forall|j: int| 0 <= j < at implies (#[trigger] before.intervals[j]).0 < x.0 || (
            before.intervals[j].0 == x.0 && before.intervals[j].1 < x.1) by {
                assert(before.intervals[j] == as_bounds(old_keys[j]));
                if placed.1 is None {
                    assert(new_keys[j] == old_keys[j]);
                }
                assert(pair_less(new_keys[j], new_keys[at as int]));
            }
            if at < before.intervals.len() {
                assert(before.intervals[at as int] == as_bounds(old_keys[at as int]));
                if placed.1 is None {
                    assert(new_keys[at + 1] == old_keys[at as int]);
                    assert(pair_less(new_keys[at as int], new_keys[at + 1]));
                }
            }
            lemma_rank_is(before.intervals, x, at as int);
        }
        match placed.1 {
            Some(_) => {
                self.payloads.set(at, payload);
                proof {
                    assert(self@.intervals =~= before.intervals);
                }
            },
            None => {
                self.payloads.insert(at, payload);
                proof {
                    assert(self@.intervals =~= before.intervals.insert(at as int, x));
                    if at < before.intervals.len() && before.intervals[at as int] == x {
                        assert(old_keys[at as int] == item);
                        assert(old_keys.contains(item));
                    }
                    assert forall|a: int| 0 <= a < self@.intervals.len() implies (
                    #[trigger] self@.intervals[a]).0 <= self@.intervals[a].1 by {
                        if a < at {
                            assert(self@.intervals[a] == before.intervals[a]);
                        } else if a > at {
                            assert(self@.intervals[a] == before.intervals[a - 1]);
                        }
                    }
                    assert forall|a: int, b: int| 0 <= a < b < self@.intervals.len() implies (
                    #[trigger] self@.intervals[a]).0 < (#[trigger] self@.intervals[b]).0 || (
                    self@.intervals[a].0 == self@.intervals[b].0 && self@.intervals[a].1
                        < self@.intervals[b].1) by {
                        assert(pair_less(new_keys[a], new_keys[b]));
                    }
                    assert forall|a: int, b: int|
                        0 <= a < self@.intervals.len() && 0 <= b < self@.intervals.len() && a
                            != b implies !overlap(
                        #[trigger] self@.intervals[a],
                        #[trigger] self@.intervals[b],
                    ) by {
                        let old_index = |k: int| if k < at { k } else { k - 1 };
                        if a != at {
                            assert(self@.intervals[a] == before.intervals[old_index(a)]);
                        }
                        if b != at {
                            assert(self@.intervals[b] == before.intervals[old_index(b)]);
                        }
                    }
                }
            },
        }
        Ok(())
    }

    /// Inserts intervals one after the other, as `try_insert` does, and stops
    /// at the first that overlaps an interval of the set.
    ///
    /// Those inserted before the failure stay in the set.
    pub fn extend(&mut self, intervals: Vec<DurationIntervalMetadata<T>>) -> (r: Result<
        (),
        DurationIntervalError,
    >)
        requires
            old(self).wf(),
        ensures
            final(self).wf(),
            final(self)@ == inserted_all(old(self)@, items_view(intervals@)).0,
            match r {
                Ok(()) => inserted_all(old(self)@, items_view(intervals@)).1 is None,
                Err(DurationIntervalError::IntervalsOverlap(existing, new)) => inserted_all(
                    old(self)@,
                    items_view(intervals@),
                ).1 == Some((existing@, new@)),
            },
    {
        let ghost all = items_view(intervals@);
        let ghost start = self@;
        let mut queue = intervals;
        let mut rest: Vec<DurationIntervalMetadata<T>> = Vec::new();
        let total_count = queue.len();
        // Items are taken from the back of a reversed copy, so that each is
        // moved out in the order in which it was given.
        while queue.len() > 0
            invariant
                rest@.len() + queue@.len() == total_count,
                total_count == all.len(),
                forall|k: int|
                    0 <= k < queue@.len() ==> (#[trigger] items_view(queue@)[k]) == all[k],
                forall|k: int|
                    0 <= k < rest@.len() ==> (#[trigger] items_view(rest@)[k]) == all[total_count
                        - 1 - k],
            decreases queue.len(),
        {
            let ghost earlier = items_view(queue@);
            let ghost moved = items_view(rest@);
            let item = queue.pop().unwrap();
            rest.push(item);
            proof {
                assert forall|k: int| 0 <= k < queue@.len() implies (#[trigger] items_view(
                    queue@,
                )[k]) == all[k] by {
                    assert(items_view(queue@)[k] == earlier[k]);
                }
                assert forall|k: int| 0 <= k < rest@.len() implies (#[trigger] items_view(
                    rest@,
                )[k]) == all[total_count - 1 - k] by {
                    if k < rest@.len() - 1 {
                        assert(items_view(rest@)[k] == moved[k]);
                    } else {
                        assert(items_view(rest@)[k] == earlier[earlier.len() - 1]);
                    }
                }
            }
        }
        let mut done: usize = 0;
        proof {
            assert(all.skip(0) =~= all);
        }
        while rest.len() > 0
            invariant
                self.wf(),
                start == old(self)@,
                all == items_view(intervals@),
                done + rest@.len() == all.len(),
                all.len() == total_count,
                forall|k: int|
                    0 <= k < rest@.len() ==> (#[trigger] items_view(rest@)[k]) == all[all.len() - 1
                        - k],
                inserted_all(start, all) == inserted_all(self@, all.skip(done as int)),
            decreases rest.len(),
        {
            let ghost waiting = items_view(rest@);
            let ghost current = self@;
            let ghost remaining = all.skip(done as int);
            let item = rest.pop().unwrap();
            proof {
                assert(remaining.len() > 0);
                assert(remaining[0] == all[done as int]);
                assert(waiting[waiting.len() - 1] == all[done as int]);
                assert((item.0.0@, item.0.1) == remaining[0]);
                assert(remaining.drop_first() =~= all.skip(done + 1));
                assert forall|k: int| 0 <= k < rest@.len() implies (#[trigger] items_view(
                    rest@,
                )[k]) == all[all.len() - 1 - k] by {
                    assert(items_view(rest@)[k] == waiting[k]);
                }
            }
            let ghost view = (item.0.0@, item.0.1);
            match self.try_insert(item) {
                Ok(()) => {
                    proof {
                        assert(inserted_all(current, remaining) == inserted_all(
                            self@,
                            remaining.drop_first(),
                        ));
                    }
                },
                Err(e) => {
                    proof {
                        assert(inserted(current, view.0, view.1) is Err);
                        assert(inserted_all(current, remaining).0 == current);
                    }
                    return Err(e);
                },
            }
            done = done + 1;
        }
        proof {
            assert(all.skip(done as int) =~= Seq::<((int, int), T)>::empty());
        }
        Ok(())
    }

    /// The sum of the lengths of the intervals, in nanoseconds; `None` where
    /// the set holds no interval, which is not the same as intervals of no
    /// length.
    pub fn total_length(&self) -> (sum: Option<u128>)
        requires
            self.wf(),
        ensures
            match sum {
                Some(nanos) => self@.intervals.len() > 0 && nanos == total(self@.intervals),
                None => self@.intervals.len() == 0,
            },
    {
        let n = keys_len(&self.keys);
        if n == 0 {
            return None;
        }
        let ghost keys = set_items(self.keys);
        let ghost all = self@.intervals;
        let mut sum: u128 = 0;
        let mut i: usize = 0;
        proof {
            assert(all.take(0) =~= Seq::<(int, int)>::empty());
        }
        while i < n
            invariant
                self.wf(),
                keys == set_items(self.keys),
                all == self@.intervals,
                n == all.len(),
                i <= n,
                sum == total(all.take(i as int)),
            decreases n - i,
        {
            let pair = keys_get(&self.keys, i);
            proof {
                let upto = all.take(i + 1);
                assert(all[i as int] == as_bounds(keys[i as int]));
                assert(upto.drop_last() =~= all.take(i as int));
                assert(upto.last() == all[i as int]);
                assert forall|a: int| 0 <= a < upto.len() implies (#[trigger] upto[a]).0
                    <= upto[a].1 by {
                    assert(upto[a] == all[a]);
                }
                assert forall|a: int, b: int| 0 <= a < b < upto.len() implies (#[trigger] upto[a]).0
                    < (#[trigger] upto[b]).0 || (upto[a].0 == upto[b].0 && upto[a].1
                    < upto[b].1) by {
                    assert(upto[a] == all[a] && upto[b] == all[b]);
                }
                assert forall|a: int, b: int|
                    0 <= a < upto.len() && 0 <= b < upto.len() && a != b implies !overlap(
                    #[trigger] upto[a],
                    #[trigger] upto[b],
                ) by {
                    assert(upto[a] == all[a] && upto[b] == all[b]);
                }
                lemma_total_bounded(upto);
                assert(upto[0] == as_bounds(keys[0]));
            }
            sum = sum + distance(pair.0, pair.1);
            i = i + 1;
        }
        proof {
            assert(all.take(n as int) =~= all);
        }
        Some(sum)
    }
}

impl<T> Default for NonOverlappingSortedDurationIntervals<T> {
    fn default() -> (set: Self)
        ensures
            set.wf(),
            set@.intervals == Seq::<(int, int)>::empty(),
            set@.payloads == Seq::<T>::empty(),
    {
        NonOverlappingSortedDurationIntervals::new()
    }
}

/// A list of intervals with what is attached, as `inserted_all` takes it.
pub open spec fn items_view<T>(items: Seq<DurationIntervalMetadata<T>>) -> Seq<((int, int), T)> {
    Seq::new(items.len(), |i: int| (items[i].0.0@, items[i].0.1))
}

} // verus!

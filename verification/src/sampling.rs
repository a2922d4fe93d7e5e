//! The smallest values seen of late.

use vstd::prelude::*;
use vstd::std_specs::cmp::{PartialEqSpec, PartialOrdSpec};
use crate::time::{Duration, Instant};

verus! {

/// Whether `<` on the type is what a total order makes it.
pub open spec fn totally_ordered<T: Ord>() -> bool {
    vstd::laws_cmp::obeys_cmp::<T>()
}

/// Whether one value is below the other.
pub open spec fn below<T: Ord>(a: T, b: T) -> bool {
    a.partial_cmp_spec(&b) == Some(core::cmp::Ordering::Less)
}

/// A value and how long it counts.
#[derive(Debug)]
pub struct DataPoint<T> {
    pub fresh_until: Instant,
    pub value: T,
}

impl<T> DataPoint<T> {
    pub fn new(value: T, fresh: Duration, now: Instant) -> (r: Self)
        requires
            now.nanos + fresh.nanos <= u128::MAX,
        ensures
            r.value == value,
            r.fresh_until.nanos == now.nanos + fresh.nanos,
    {
        DataPoint { fresh_until: now.after(fresh), value }
    }

    /// Whether the point's term still runs.
    pub open spec fn fresh_at(self, now: Instant) -> bool {
        now.nanos <= self.fresh_until.nanos
    }

    pub fn is_fresh(&self, now: Instant) -> (r: bool)
        ensures
            r == self.fresh_at(now),
    {
        now.nanos <= self.fresh_until.nanos
    }
}

/// Where a value goes among sorted points: behind all that are not above it.
pub open spec fn place<T: Ord>(points: Seq<DataPoint<T>>, value: T) -> int
    decreases points.len(),
{
    if points.len() == 0 {
        0
    } else if below(value, points.last().value) {
        place(points.drop_last(), value)
    } else {
        points.len() as int
    }
}

/// The points in ascending order, equal ones in the order they had.
pub open spec fn sorted<T: Ord>(points: Seq<DataPoint<T>>) -> Seq<DataPoint<T>>
    decreases points.len(),
{
    if points.len() == 0 {
        points
    } else {
        let rest = sorted(points.drop_last());
        rest.insert(place(rest, points.last().value), points.last())
    }
}

/// The point that a new value pushes out, looking from `i` on: a point that is
/// not fresh while there is no room, met before any point below the value.
pub open spec fn evicted<T: Ord>(
    points: Seq<DataPoint<T>>,
    value: T,
    max_len: nat,
    now: Instant,
    i: int,
) -> Option<int>
    decreases points.len() - i,
{
    if i >= points.len() {
        None
    } else if !points[i].fresh_at(now) && max_len == points.len() {
        Some(i)
    } else if below(points[i].value, value) {
        None
    } else {
        evicted(points, value, max_len, now, i + 1)
    }
}

/// The points without the one at `i`, whose place the last one takes.
pub open spec fn swap_removed<T>(points: Seq<DataPoint<T>>, i: int) -> Seq<DataPoint<T>> {
    points.update(i, points.last()).drop_last()
}

/// The points after a new one came.
pub open spec fn inserted<T: Ord>(
    points: Seq<DataPoint<T>>,
    point: DataPoint<T>,
    max_len: nat,
    now: Instant,
) -> Seq<DataPoint<T>> {
    let kept = match evicted(points, point.value, max_len, now, 0) {
        Some(i) => swap_removed(points, i),
        None => points,
    };
    let all = sorted(kept.push(point));
    if all.len() <= max_len {
        all
    } else {
        all.take(max_len as int)
    }
}

/// A bounded number of values, the smallest first.
#[derive(Debug)]
pub struct TopSample<T> {
    pub data_points: Vec<DataPoint<T>>,
    pub max_len: usize,
    pub fresh: Duration,
}

impl<T> TopSample<T> {
    pub fn new(max_len: usize, fresh: Duration) -> (r: TopSample<T>)
        ensures
            r.data_points@.len() == 0,
            r.max_len == max_len,
            r.fresh == fresh,
    {
        TopSample { data_points: Vec::new(), max_len, fresh }
    }

    /// The `nth` smallest value.
    pub fn get_nth(&self, nth: usize) -> (r: Option<&T>)
        requires
            self.data_points@.len() == 0 || nth < self.data_points@.len(),
        ensures
            match r {
                Some(value) => self.data_points@.len() > 0 && *value
                    == self.data_points@[nth as int].value,
                None => self.data_points@.len() == 0,
            },
    {
        if self.data_points.len() == 0 {
            return None;
        }
        Some(&self.data_points[nth].value)
    }

    /// The value that a twentieth of the values are ranked before.
    pub fn get_5_percentile(&self) -> (r: Option<&T>)
        ensures
            match r {
                Some(value) => self.data_points@.len() > 0 && *value
                    == self.data_points@[self.data_points@.len() as int / 20].value,
                None => self.data_points@.len() == 0,
            },
    {
        self.get_nth(self.data_points.len() / 20)
    }
}

/// Whether the points ascend.
pub open spec fn ascending<T: Ord>(points: Seq<DataPoint<T>>) -> bool {
    forall|i: int, j: int|
        0 <= i <= j < points.len() ==> !below(
            (#[trigger] points[j]).value,
            (#[trigger] points[i]).value,
        )
}

proof fn lemma_not_below_is_transitive<T: Ord>(a: T, b: T, c: T)
    requires
        totally_ordered::<T>(),
        !below(b, a),
        !below(c, b),
    ensures
        !below(c, a),
{
    reveal(vstd::laws_cmp::obeys_partial_cmp_spec_properties);
    reveal(vstd::laws_cmp::obeys_cmp_partial_ord);
    reveal(vstd::laws_cmp::obeys_cmp_ord);
    reveal(vstd::laws_eq::obeys_eq_spec_properties);
    if below(c, a) {
        // c < a, and not b < a, and not c < b: then a <= b <= c < a.
        if a.partial_cmp_spec(&b) == Some(core::cmp::Ordering::Less) {
            assert(below(c, b));
        } else {
            assert(a.partial_cmp_spec(&b) == Some(core::cmp::Ordering::Equal));
            assert(a.eq_spec(&b));
            if b.partial_cmp_spec(&c) == Some(core::cmp::Ordering::Less) {
                assert(below(b, a));
            } else {
                assert(b.partial_cmp_spec(&c) == Some(core::cmp::Ordering::Equal));
                assert(b.eq_spec(&c));
                assert(a.eq_spec(&c));
                assert(c.eq_spec(&a));
            }
        }
    }
}

proof fn lemma_below_is_strict<T: Ord>(a: T, b: T)
    requires
        totally_ordered::<T>(),
    ensures
        !below(a, a),
        below(a, b) ==> !below(b, a),
{
    reveal(vstd::laws_cmp::obeys_partial_cmp_spec_properties);
    reveal(vstd::laws_cmp::obeys_cmp_partial_ord);
    reveal(vstd::laws_cmp::obeys_cmp_ord);
    reveal(vstd::laws_eq::obeys_eq_spec_properties);
    assert(a.eq_spec(&a));
}

/// Asks whether one value is below the other.
fn is_below<T: Ord>(a: &T, b: &T) -> (r: bool)
    requires
        totally_ordered::<T>(),
    ensures
        r == below(*a, *b),
{
    reveal(vstd::laws_cmp::obeys_cmp_partial_ord);
    *a < *b
}

/// Sorts the points.
fn sort_points<T: Ord>(points: Vec<DataPoint<T>>) -> (r: Vec<DataPoint<T>>)
    requires
        totally_ordered::<T>(),
    ensures
        r@ == sorted(points@),
{
    let mut points: Vec<DataPoint<T>> = points;
    let ghost all = points@;
    let mut out: Vec<DataPoint<T>> = Vec::new();
    assert(all.take(0) =~= Seq::<DataPoint<T>>::empty());
    while points.len() > 0
        invariant
            totally_ordered::<T>(),
            out@.len() + points@.len() == all.len(),
            points@ == all.skip(out@.len() as int),
            out@ == sorted(all.take(out@.len() as int)),
        decreases points@.len(),
    {
        let ghost n = out@.len() as int;
        let point = points.remove(0);
        assert(point == all[n]);
        assert(points@ =~= all.skip(n + 1));
        let mut at: usize = out.len();
        assert(out@.take(at as int) =~= out@);
        while at > 0 && is_below(&point.value, &out[at - 1].value)
            invariant
                totally_ordered::<T>(),
                at <= out@.len(),
                place(out@.take(at as int), point.value) == place(out@, point.value),
            decreases at,
        {
            assert(out@.take(at as int).drop_last() =~= out@.take(at - 1));
            at -= 1;
        }
        assert(place(out@, point.value) == at) by {
            if at > 0 {
                assert(out@.take(at as int).last() == out@[at - 1]);
            }
        }
        out.insert(at, point);
        assert(all.take(n + 1).drop_last() =~= all.take(n));
    }
    assert(all.take(out@.len() as int) =~= all);
    out
}

impl<T: Ord> TopSample<T> {
    /// Adds a value. Where there is no room, a point that is not fresh makes
    /// room, or else the greatest value goes.
    pub fn insert(&mut self, value: T, now: Instant)
        requires
            totally_ordered::<T>(),
            now.nanos + old(self).fresh.nanos <= u128::MAX,
        ensures
            final(self).max_len == old(self).max_len,
            final(self).fresh == old(self).fresh,
            final(self).data_points@ == inserted(
                old(self).data_points@,
                DataPoint {
                    fresh_until: Instant { nanos: (now.nanos + old(self).fresh.nanos) as u128 },
                    value,
                },
                old(self).max_len as nat,
                now,
            ),
    {
        let point = DataPoint::new(value, self.fresh, now);
        let mut points: Vec<DataPoint<T>> = Vec::new();
        points.append(&mut self.data_points);
        assert(points@ =~= old(self).data_points@);
        let ghost before = points@;
        let mut i: usize = 0;
        let mut out: Option<usize> = None;
        while i < points.len()
            invariant_except_break
                out is None,
                evicted(before, point.value, self.max_len as nat, now, i as int) == evicted(
                    before,
                    point.value,
                    self.max_len as nat,
                    now,
                    0,
                ),
            invariant
                totally_ordered::<T>(),
                points@ == before,
                i <= before.len(),
            ensures
                match out {
                    Some(at) => evicted(before, point.value, self.max_len as nat, now, 0) == Some(
                        at as int,
                    ) && at < before.len(),
                    None => evicted(before, point.value, self.max_len as nat, now, 0) is None,
                },
            decreases before.len() - i,
        {
            if !points[i].is_fresh(now) && self.max_len == points.len() {
                out = Some(i);
                break;
            }
            if is_below(&points[i].value, &point.value) {
                break;
            }
            i += 1;
        }
        if let Some(at) = out {
            points.swap_remove(at);
        }
        points.push(point);
        let mut all: Vec<DataPoint<T>> = sort_points(points);
        all.truncate(self.max_len);
        self.data_points = all;
    }
}

proof fn lemma_place_in_range<T: Ord>(points: Seq<DataPoint<T>>, value: T)
    ensures
        0 <= place(points, value) <= points.len(),
        forall|i: int|
            place(points, value) <= i < points.len() ==> below(value, (#[trigger] points[i]).value),
        place(points, value) > 0 ==> !below(value, points[place(points, value) - 1].value),
    decreases points.len(),
{
    if points.len() > 0 && below(value, points.last().value) {
        lemma_place_in_range(points.drop_last(), value);
        assert forall|i: int| place(points, value) <= i < points.len() implies below(
            value,
            (#[trigger] points[i]).value,
        ) by {
            if i < points.len() - 1 {
                assert(points.drop_last()[i] == points[i]);
            }
        }
    }
}

/// Sorting keeps all points, and puts them in ascending order.
pub proof fn sorted_is_an_ascending_permutation<T: Ord>(points: Seq<DataPoint<T>>)
    requires
        totally_ordered::<T>(),
    ensures
        ascending(sorted(points)),
        sorted(points).to_multiset() == points.to_multiset(),
        sorted(points).len() == points.len(),
    decreases points.len(),
{
    broadcast use vstd::seq_lib::group_to_multiset_ensures;

    if points.len() > 0 {
        let init = points.drop_last();
        let last = points.last();
        let rest = sorted(init);
        sorted_is_an_ascending_permutation(init);
        lemma_place_in_range(rest, last.value);
        let at = place(rest, last.value);
        let out = sorted(points);
        assert(points =~= init.push(last));
        assert(out.to_multiset() =~= rest.to_multiset().insert(last)) by {
            vstd::seq_lib::to_multiset_insert(rest, at, last);
        }
        assert forall|i: int, j: int| 0 <= i <= j < out.len() implies !below(
            (#[trigger] out[j]).value,
            (#[trigger] out[i]).value,
        ) by {
            lemma_below_is_strict(out[i].value, out[j].value);
            if i < at && j < at {
                assert(out[i] == rest[i] && out[j] == rest[j]);
            } else if i > at && j > at {
                assert(out[i] == rest[i - 1] && out[j] == rest[j - 1]);
            } else if i < at && j == at {
                assert(out[i] == rest[i]);
                assert(!below(rest[at - 1].value, rest[i].value));
                lemma_not_below_is_transitive(rest[i].value, rest[at - 1].value, last.value);
            } else if i == at && j > at {
                assert(out[j] == rest[j - 1]);
                lemma_below_is_strict(last.value, rest[j - 1].value);
            } else if i < at && j > at {
                assert(out[i] == rest[i] && out[j] == rest[j - 1]);
            }
        }
    }
}

/// After any insertion the sample ascends and holds no more values than it may.
pub proof fn sample_stays_sorted_and_bounded<T: Ord>(
    points: Seq<DataPoint<T>>,
    point: DataPoint<T>,
    max_len: nat,
    now: Instant,
)
    requires
        totally_ordered::<T>(),
    ensures
        ascending(inserted(points, point, max_len, now)),
        inserted(points, point, max_len, now).len() <= max_len,
{
    let kept = match evicted(points, point.value, max_len, now, 0) {
        Some(i) => swap_removed(points, i),
        None => points,
    };
    sorted_is_an_ascending_permutation(kept.push(point));
}

proof fn lemma_fresh_points_stay<T: Ord>(
    points: Seq<DataPoint<T>>,
    value: T,
    max_len: nat,
    now: Instant,
    i: int,
)
    requires
        0 <= i,
        forall|j: int| 0 <= j < points.len() ==> (#[trigger] points[j]).fresh_at(now),
    ensures
        evicted(points, value, max_len, now, i) is None,
    decreases points.len() - i,
{
    if i < points.len() && !below(points[i].value, value) {
        lemma_fresh_points_stay(points, value, max_len, now, i + 1);
    }
}

/// While every point is fresh, the sample holds the smallest of all that came:
/// none that it drops is below one that it keeps.
pub proof fn a_fresh_sample_keeps_the_smallest<T: Ord>(
    points: Seq<DataPoint<T>>,
    point: DataPoint<T>,
    max_len: nat,
    now: Instant,
)
    requires
        totally_ordered::<T>(),
        forall|j: int| 0 <= j < points.len() ==> (#[trigger] points[j]).fresh_at(now),
    ensures
        ({
            let all = sorted(points.push(point));
            let kept = inserted(points, point, max_len, now);
            &&& all.to_multiset() == points.push(point).to_multiset()
            &&& kept.len() == if all.len() <= max_len {
                all.len()
            } else {
                max_len
            }
            &&& kept == all.take(kept.len() as int)
            &&& forall|i: int, j: int|
                0 <= i < kept.len() && kept.len() <= j < all.len() ==> !below(
                    (#[trigger] all[j]).value,
                    (#[trigger] kept[i]).value,
                )
        }),
{
    lemma_fresh_points_stay(points, point.value, max_len, now, 0);
    sorted_is_an_ascending_permutation(points.push(point));
    let all = sorted(points.push(point));
    let kept = inserted(points, point, max_len, now);
    assert(kept =~= all.take(kept.len() as int));
    assert forall|i: int, j: int|
        0 <= i < kept.len() && kept.len() <= j < all.len() implies !below(
        (#[trigger] all[j]).value,
        (#[trigger] kept[i]).value,
    ) by {
        assert(kept[i] == all[i]);
    }
}

/// A point counts until its term is over, to the last moment of it.
pub proof fn a_point_counts_until_its_term_is_over<T>(point: DataPoint<T>, now: Instant)
    ensures
        point.fresh_at(now) <==> !(now.nanos > point.fresh_until.nanos),
{
}

/// Of integers, one is below the other exactly if it is less.
pub proof fn below_means_less(a: u64, b: u64)
    ensures
        below(a, b) <==> a < b,
        totally_ordered::<u64>(),
{
    broadcast use vstd::laws_cmp::group_laws_cmp;

}

proof fn lemma_stale_point_is_evicted<T: Ord>(
    points: Seq<DataPoint<T>>,
    value: T,
    now: Instant,
    i: int,
    at: int,
)
    requires
        0 <= i <= at < points.len(),
        now.nanos > points[at].fresh_until.nanos,
        forall|j: int|
            0 <= j < at ==> now.nanos <= (#[trigger] points[j]).fresh_until.nanos && !below(
                points[j].value,
                value,
            ),
    ensures
        evicted(points, value, points.len(), now, i) == Some(at),
    decreases at - i,
{
    if i < at {
        assert(!below(points[i].value, value));
        lemma_stale_point_is_evicted(points, value, now, i + 1, at);
    }
}

proof fn lemma_swap_removed<T>(points: Seq<DataPoint<T>>, i: int)
    requires
        0 <= i < points.len(),
    ensures
        swap_removed(points, i).to_multiset() == points.remove(i).to_multiset(),
{
    broadcast use vstd::seq_lib::group_to_multiset_ensures;

    let n = points.len() - 1;
    let left = swap_removed(points, i);
    vstd::seq_lib::to_multiset_remove(points, i);
    if i == n {
        assert(left =~= points.remove(i));
    } else {
        let swapped = points.update(i, points.last());
        vstd::seq_lib::to_multiset_remove(swapped, n);
        assert(swapped.remove(n) =~= left);
        vstd::seq_lib::to_multiset_update(points, i, points.last());
        assert(left.to_multiset() =~= points.remove(i).to_multiset());
    }
}

/// Where there is no room, the first stale point that no smaller value stands
/// before makes room for the new one: all others stay.
pub proof fn a_stale_point_makes_room<T: Ord>(
    points: Seq<DataPoint<T>>,
    point: DataPoint<T>,
    now: Instant,
    at: int,
)
    requires
        totally_ordered::<T>(),
        0 <= at < points.len(),
        now.nanos > points[at].fresh_until.nanos,
        forall|j: int|
            0 <= j < at ==> now.nanos <= (#[trigger] points[j]).fresh_until.nanos && !below(
                points[j].value,
                point.value,
            ),
    ensures
        inserted(points, point, points.len(), now).to_multiset() == points.remove(at).push(
            point,
        ).to_multiset(),
        forall|i: int, j: int|
            0 <= i <= j < inserted(points, point, points.len(), now).len() ==> !below(
                (#[trigger] inserted(points, point, points.len(), now)[j]).value,
                (#[trigger] inserted(points, point, points.len(), now)[i]).value,
            ),
{
    broadcast use vstd::seq_lib::group_to_multiset_ensures;

    lemma_stale_point_is_evicted(points, point.value, now, 0, at);
    lemma_swap_removed(points, at);
    let left = swap_removed(points, at);
    sorted_is_an_ascending_permutation(left.push(point));
    assert(left.push(point).to_multiset() =~= points.remove(at).push(point).to_multiset());
    assert(inserted(points, point, points.len(), now) =~= sorted(left.push(point)));
}

proof fn lemma_none_is_evicted<T: Ord>(
    points: Seq<DataPoint<T>>,
    value: T,
    max_len: nat,
    now: Instant,
    i: int,
    b: int,
)
    requires
        0 <= i,
        max_len != points.len() || (i <= b < points.len() && below(points[b].value, value)
            && forall|j: int|
            i <= j <= b ==> now.nanos <= (#[trigger] points[j]).fresh_until.nanos),
    ensures
        evicted(points, value, max_len, now, i) is None,
    decreases points.len() - i,
{
    if i < points.len() && !below(points[i].value, value) {
        if max_len == points.len() {
            assert(now.nanos <= points[i].fresh_until.nanos);
        }
        lemma_none_is_evicted(points, value, max_len, now, i + 1, b);
    } else if i < points.len() && max_len == points.len() {
        assert(now.nanos <= points[i].fresh_until.nanos);
    }
}

/// While there is room, while no point is stale, or once a value below the new
/// one stands before any stale point, no point is dropped for being stale: the sample holds the
/// smallest of all, and none that is left out is below one that it holds.
pub proof fn otherwise_the_greatest_goes<T: Ord>(
    points: Seq<DataPoint<T>>,
    point: DataPoint<T>,
    max_len: nat,
    now: Instant,
    b: int,
)
    requires
        totally_ordered::<T>(),
        max_len != points.len() || (0 <= b < points.len() && below(
            points[b].value,
            point.value,
        ) && forall|j: int|
            0 <= j <= b ==> now.nanos <= (#[trigger] points[j]).fresh_until.nanos) || forall|
            j: int,
        |
            0 <= j < points.len() ==> now.nanos <= (#[trigger] points[j]).fresh_until.nanos,
    ensures
        exists|left: Seq<DataPoint<T>>|
            {
                &&& #[trigger] (inserted(points, point, max_len, now) + left).to_multiset()
                    == points.push(point).to_multiset()
                &&& left.len() > 0 ==> inserted(points, point, max_len, now).len() == max_len
                &&& forall|i: int, j: int|
                    0 <= i < inserted(points, point, max_len, now).len() && 0 <= j < left.len()
                        ==> !below(
                        (#[trigger] left[j]).value,
                        (#[trigger] inserted(points, point, max_len, now)[i]).value,
                    )
            },
{
    if forall|j: int|
        0 <= j < points.len() ==> now.nanos <= (#[trigger] points[j]).fresh_until.nanos {
        lemma_fresh_points_stay(points, point.value, max_len, now, 0);
    } else {
        lemma_none_is_evicted(points, point.value, max_len, now, 0, b);
    }
    sorted_is_an_ascending_permutation(points.push(point));
    let all = sorted(points.push(point));
    let kept = inserted(points, point, max_len, now);
    let left = all.skip(kept.len() as int);
    assert(kept + left =~= all);
    assert forall|i: int, j: int| 0 <= i < kept.len() && 0 <= j < left.len() implies !below(
        (#[trigger] left[j]).value,
        (#[trigger] kept[i]).value,
    ) by {
        assert(kept[i] == all[i]);
        assert(left[j] == all[kept.len() + j]);
    }
}

} // verus!

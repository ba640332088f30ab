//! Sorting and searching by time.

use vstd::prelude::*;
use vstd::std_specs::cmp::{PartialOrdIs, PartialOrdSpec};

verus! {

/// A sort key: a point in time, and a number that decides between equal times.
pub type SortKey = (i128, usize);

/// Whether the item at `a` comes before the item at `b` when items are sorted by their keys and
/// items with equal keys keep their places.
pub open spec fn precedes(keys: Seq<SortKey>, a: int, b: int) -> bool {
    ||| keys[a].0 < keys[b].0
    ||| keys[a].0 == keys[b].0 && keys[a].1 < keys[b].1
    ||| keys[a].0 == keys[b].0 && keys[a].1 == keys[b].1 && a < b
}

/// Whether `order` lists ascending positions of `keys`.
pub open spec fn is_ascending(keys: Seq<SortKey>, order: Seq<usize>) -> bool {
    forall|i: int, j: int|
        #![trigger order[i], order[j]]
        0 <= i < j < order.len() ==> precedes(keys, order[i] as int, order[j] as int)
}

/// Whether `order` lists each position from `low` up to `high` and no other.
pub open spec fn covers(order: Seq<usize>, low: int, high: int) -> bool {
    &&& order.len() == high - low
    &&& forall|i: int| 0 <= i < order.len() ==> low <= #[trigger] order[i] < high
    &&& forall|x: usize| low <= x < high ==> #[trigger] order.contains(x)
}

/// Whether `order` lists the positions of `keys` from the smallest key to the largest, positions
/// of equal keys in their given order.
pub open spec fn is_stable_order(keys: Seq<SortKey>, order: Seq<usize>) -> bool {
    is_ascending(keys, order) && covers(order, 0, keys.len() as int)
}

/// Whether the item at `a` comes before the item at `b`.
fn check_precedes(keys: &[SortKey], a: usize, b: usize) -> (before: bool)
    requires
        a < keys@.len(),
        b < keys@.len(),
    ensures
        before == precedes(keys@, a as int, b as int),
{
    let first = keys[a];
    let second = keys[b];
    if first.0 != second.0 {
        first.0 < second.0
    } else if first.1 != second.1 {
        first.1 < second.1
    } else {
        a < b
    }
}

/// Merges two ascending lists of adjoining position ranges.
fn merge(
    keys: &[SortKey],
    left: Vec<usize>,
    right: Vec<usize>,
    low: usize,
    middle: usize,
    high: usize,
) -> (merged: Vec<usize>)
    requires
        low <= middle <= high <= keys@.len(),
        covers(left@, low as int, middle as int),
        covers(right@, middle as int, high as int),
        is_ascending(keys@, left@),
        is_ascending(keys@, right@),
    ensures
        covers(merged@, low as int, high as int),
        is_ascending(keys@, merged@),
{
    let mut merged: Vec<usize> = Vec::new();
    let mut l: usize = 0;
    let mut r: usize = 0;
    while l < left.len() || r < right.len()
        invariant
            low <= middle <= high <= keys@.len(),
            covers(left@, low as int, middle as int),
            covers(right@, middle as int, high as int),
            is_ascending(keys@, left@),
            is_ascending(keys@, right@),
            l <= left@.len(),
            r <= right@.len(),
            merged@.len() == l + r,
            is_ascending(keys@, merged@),
            forall|i: int|
                0 <= i < merged@.len() ==> low <= #[trigger] merged@[i] < high,
            forall|i: int, j: int|
                #![trigger merged@[i], left@[j]]
                0 <= i < merged@.len() && l <= j < left@.len() ==> precedes(
                    keys@,
                    merged@[i] as int,
                    left@[j] as int,
                ),
            forall|i: int, j: int|
                #![trigger merged@[i], right@[j]]
                0 <= i < merged@.len() && r <= j < right@.len() ==> precedes(
                    keys@,
                    merged@[i] as int,
                    right@[j] as int,
                ),
            forall|j: int| 0 <= j < l ==> merged@.contains(#[trigger] left@[j]),
            forall|j: int| 0 <= j < r ==> merged@.contains(#[trigger] right@[j]),
        decreases left@.len() + right@.len() - l - r,
    {
        let ghost before = merged@;
        let take_left = if l == left.len() {
            false
        } else if r == right.len() {
            true
        } else {
            check_precedes(keys, left[l], right[r])
        };
        if take_left {
            assert(left@[l as int] < high);
            merged.push(left[l]);
            l = l + 1;
        } else {
            assert(low <= right@[r as int]);
            merged.push(right[r]);
            r = r + 1;
        }
        proof {
            assert(merged@[before.len() as int] == merged@.last());
            assert forall|x: usize| before.contains(x) implies #[trigger] merged@.contains(x) by {
                let i = choose|i: int| 0 <= i < before.len() && before[i] == x;
                assert(merged@[i] == x);
            }
        }
    }
    proof {
        assert forall|x: usize| low <= x < high implies #[trigger] merged@.contains(x) by {
            if x < middle {
                assert(left@.contains(x));
                let j = choose|j: int| 0 <= j < left@.len() && left@[j] == x;
                assert(merged@.contains(left@[j]));
            } else {
                assert(right@.contains(x));
                let j = choose|j: int| 0 <= j < right@.len() && right@[j] == x;
                assert(merged@.contains(right@[j]));
            }
        }
    }
    merged
}

/// Sorts the positions from `low` up to `high`.
fn sort_range(keys: &[SortKey], low: usize, high: usize) -> (order: Vec<usize>)
    requires
        low <= high <= keys@.len(),
    ensures
        covers(order@, low as int, high as int),
        is_ascending(keys@, order@),
    decreases high - low,
{
    if high - low == 0 {
        return Vec::new();
    }
    if high - low == 1 {
        let mut order: Vec<usize> = Vec::new();
        order.push(low);
        proof {
            assert(order@[0] == low);
            assert forall|x: usize| low <= x < high implies #[trigger] order@.contains(x) by {
                assert(order@[0] == x);
            }
        }
        return order;
    }
    let middle: usize = low + (high - low) / 2;
    let left = sort_range(keys, low, middle);
    let right = sort_range(keys, middle, high);
    merge(keys, left, right, low, middle, high)
}

/// The positions of `keys` from the smallest key to the largest, positions of equal keys in their
/// given order.
pub fn stable_order(keys: &[SortKey]) -> (order: Vec<usize>)
    ensures
        is_stable_order(keys@, order@),
{
    sort_range(keys, 0, keys.len())
}

/// There is one stable order of given keys.
pub proof fn stable_order_is_unique(keys: Seq<SortKey>, a: Seq<usize>, b: Seq<usize>)
    requires
        is_stable_order(keys, a),
        is_stable_order(keys, b),
    ensures
        a == b,
{
    assert forall|i: int| 0 <= i < a.len() implies a[i] == b[i] by {
        stable_orders_agree_up_to(keys, a, b, i);
    }
    assert(a =~= b);
}

/// The stable order of given keys.
pub open spec fn stable_order_of(keys: Seq<SortKey>) -> Seq<usize> {
    choose|order: Seq<usize>| is_stable_order(keys, order)
}

/// The place where a position belongs among ascending positions.
proof fn insertion_place(keys: Seq<SortKey>, order: Seq<usize>, item: usize) -> (place: int)
    requires
        is_ascending(keys, order),
        !order.contains(item),
    ensures
        0 <= place <= order.len(),
        forall|i: int|
            0 <= i < place ==> precedes(keys, #[trigger] order[i] as int, item as int),
        forall|i: int|
            place <= i < order.len() ==> precedes(keys, item as int, #[trigger] order[i] as int),
    decreases order.len(),
{
    if order.len() == 0 {
        0
    } else {
        let last = (order.len() - 1) as int;
        assert(order[last] != item);
        if precedes(keys, order[last] as int, item as int) {
            assert forall|i: int| 0 <= i < order.len() implies precedes(
                keys,
                #[trigger] order[i] as int,
                item as int,
            ) by {
                if i < last {
                    assert(precedes(keys, order[i] as int, order[last] as int));
                }
            }
            order.len() as int
        } else {
            let front = order.drop_last();
            assert(!front.contains(item)) by {
                if front.contains(item) {
                    let i = choose|i: int| 0 <= i < front.len() && front[i] == item;
                    assert(order[i] == item);
                }
            }
            assert forall|i: int, j: int|
                #![trigger front[i], front[j]]
                0 <= i < j < front.len() implies precedes(
                keys,
                front[i] as int,
                front[j] as int,
            ) by {
                assert(precedes(keys, order[i] as int, order[j] as int));
            }
            let place = insertion_place(keys, front, item);
            assert forall|i: int| 0 <= i < place implies precedes(
                keys,
                #[trigger] order[i] as int,
                item as int,
            ) by {
                assert(front[i] == order[i]);
            }
            assert forall|i: int| place <= i < order.len() implies precedes(
                keys,
                item as int,
                #[trigger] order[i] as int,
            ) by {
                if i < last {
                    assert(front[i] == order[i]);
                }
            }
            place
        }
    }
}

/// Keys have a stable order.
pub proof fn stable_order_exists(keys: Seq<SortKey>)
    requires
        keys.len() <= usize::MAX,
    ensures
        is_stable_order(keys, stable_order_of(keys)),
{
    let order = build_stable_order(keys, keys.len() as int);
    assert(is_stable_order(keys, order));
}

/// The first `count` positions of keys in ascending order.
proof fn build_stable_order(keys: Seq<SortKey>, count: int) -> (order: Seq<usize>)
    requires
        0 <= count <= keys.len() <= usize::MAX,
    ensures
        is_ascending(keys, order),
        covers(order, 0, count),
    decreases count,
{
    if count == 0 {
        Seq::empty()
    } else {
        let earlier = build_stable_order(keys, count - 1);
        let item = (count - 1) as usize;
        let place = insertion_place(keys, earlier, item);
        let order = earlier.insert(place, item);
        assert forall|i: int, j: int|
            #![trigger order[i], order[j]]
            0 <= i < j < order.len() implies precedes(keys, order[i] as int, order[j] as int) by {
            let from = if i < place { i } else { i - 1 };
            let to = if j < place { j } else { j - 1 };
            if i != place && j != place {
                assert(order[i] == earlier[from] && order[j] == earlier[to]);
            } else if i == place {
                assert(order[j] == earlier[to]);
            } else {
                assert(order[i] == earlier[from]);
            }
        }
        assert forall|x: usize| 0 <= x < count implies #[trigger] order.contains(x) by {
            if x == item {
                assert(order[place] == x);
            } else {
                assert(earlier.contains(x));
                let i = choose|i: int| 0 <= i < earlier.len() && earlier[i] == x;
                assert(order[if i < place { i } else { i + 1 }] == x);
            }
        }
        order
    }
}

/// `items` sorted by their keys, items with equal keys in their given order.
pub open spec fn stably_sorted<T>(items: Seq<T>, keys: Seq<SortKey>) -> Seq<T> {
    Seq::new(items.len(), |i: int| items[stable_order_of(keys)[i] as int])
}

/// The items at the given positions.
pub open spec fn picked<T>(items: Seq<T>, order: Seq<usize>) -> Seq<T> {
    Seq::new(order.len(), |i: int| items[order[i] as int])
}

/// Listing each position once keeps the items.
proof fn permutation_keeps_items<T>(items: Seq<T>, order: Seq<usize>)
    requires
        covers(order, 0, items.len() as int),
        order.no_duplicates(),
        items.len() <= usize::MAX,
    ensures
        picked(items, order).to_multiset() == items.to_multiset(),
    decreases items.len(),
{
    broadcast use vstd::multiset::group_multiset_axioms;
    broadcast use vstd::seq_lib::group_to_multiset_ensures;

    let all = picked(items, order);
    if items.len() == 0 {
        assert(all =~= items);
    } else {
        let last = (items.len() - 1) as usize;
        assert(order.contains(last));
        let place = choose|i: int| 0 <= i < order.len() && order[i] == last;
        let rest = order.remove(place);
        let front = items.drop_last();
        assert forall|i: int| 0 <= i < rest.len() implies 0 <= #[trigger] rest[i] < last by {
            let from = if i < place {
                i
            } else {
                i + 1
            };
            assert(rest[i] == order[from]);
            assert(order[from] != order[place]);
        }
        assert forall|x: usize| 0 <= x < last implies #[trigger] rest.contains(x) by {
            assert(order.contains(x));
            let i = choose|i: int| 0 <= i < order.len() && order[i] == x;
            assert(rest[if i < place {
                i
            } else {
                i - 1
            }] == x);
        }
        assert forall|i: int, j: int|
            0 <= i < rest.len() && 0 <= j < rest.len() && i != j implies rest[i] != rest[j] by {
            let from = if i < place {
                i
            } else {
                i + 1
            };
            let to = if j < place {
                j
            } else {
                j + 1
            };
            assert(rest[i] == order[from] && rest[j] == order[to]);
        }
        permutation_keeps_items(front, rest);
        assert(all.remove(place) =~= picked(front, rest));
        assert(front.push(items.last()) =~= items);
        assert(all[place] == items.last());
        assert(all.contains(items.last()));
        assert(all.to_multiset() =~= all.to_multiset().remove(items.last()).insert(items.last()));
    }
}

/// Sorting keeps the items: each occurs as often as before. They come out by ascending keys, items
/// with equal keys in their given order.
pub proof fn sorting_keeps_items<T>(items: Seq<T>, keys: Seq<SortKey>)
    requires
        items.len() == keys.len() <= usize::MAX,
    ensures
        stably_sorted(items, keys).to_multiset() == items.to_multiset(),
        is_ascending(keys, stable_order_of(keys)),
        stably_sorted(items, keys) == picked(items, stable_order_of(keys)),
{
    let order = stable_order_of(keys);
    stable_order_exists(keys);
    assert forall|i: int, j: int|
        0 <= i < order.len() && 0 <= j < order.len() && i != j implies order[i] != order[j] by {
        if i < j {
            assert(precedes(keys, order[i] as int, order[j] as int));
        } else {
            assert(precedes(keys, order[j] as int, order[i] as int));
        }
    }
    permutation_keeps_items(items, order);
    assert(stably_sorted(items, keys) =~= picked(items, order));
}

/// Sorts items by their keys and leaves items with equal keys in their given order.
pub fn sort_by_keys<T: Copy>(items: &[T], keys: &[SortKey]) -> (sorted: Vec<T>)
    requires
        items@.len() == keys@.len(),
    ensures
        sorted@ == stably_sorted(items@, keys@),
        is_stable_order(keys@, stable_order_of(keys@)),
{
    let order = stable_order(keys);
    proof {
        stable_order_is_unique(keys@, order@, stable_order_of(keys@));
    }
    let mut sorted: Vec<T> = Vec::new();
    let mut place: usize = 0;
    while place < order.len()
        invariant
            items@.len() == keys@.len(),
            is_stable_order(keys@, order@),
            order@ == stable_order_of(keys@),
            place <= order@.len(),
            sorted@.len() == place,
            forall|i: int| 0 <= i < place ==> sorted@[i] == items@[order@[i] as int],
        decreases order@.len() - place,
    {
        let index: usize = order[place];
        sorted.push(items[index]);
        place = place + 1;
    }
    assert(sorted@ =~= stably_sorted(items@, keys@));
    sorted
}

/// Two stable orders of the same keys agree at each place.
proof fn stable_orders_agree_up_to(keys: Seq<SortKey>, a: Seq<usize>, b: Seq<usize>, place: int)
    requires
        is_stable_order(keys, a),
        is_stable_order(keys, b),
        0 <= place < a.len(),
    ensures
        a[place] == b[place],
    decreases place,
{
    assert forall|i: int| 0 <= i < place implies a[i] == b[i] by {
        stable_orders_agree_up_to(keys, a, b, i);
    }
    if a[place] != b[place] {
        assert(b.contains(a[place]));
        let in_b = choose|i: int| 0 <= i < b.len() && b[i] == a[place];
        assert(a.contains(b[place]));
        let in_a = choose|i: int| 0 <= i < a.len() && a[i] == b[place];
        if in_b < place {
            assert(precedes(keys, a[in_b] as int, a[place] as int));
        }
        if in_a < place {
            assert(precedes(keys, b[in_a] as int, b[place] as int));
        }
        assert(precedes(keys, b[place] as int, b[in_b] as int));
        assert(precedes(keys, a[place] as int, a[in_a] as int));
    }
}

/// Whether `times` never goes back.
pub open spec fn is_chronological(times: Seq<int>) -> bool {
    forall|i: int, j: int| 0 <= i <= j < times.len() ==> times[i] <= times[j]
}

/// Whether `times` changes at `next` from at most `target` to beyond it.
pub open spec fn is_upper_bound(times: Seq<int>, target: int, next: int) -> bool {
    &&& 0 <= next <= times.len()
    &&& next > 0 ==> times[next - 1] <= target
    &&& next < times.len() ==> target < times[next]
}

/// Whether `times` changes at `next` from below `target` to at least `target`.
pub open spec fn is_lower_bound(times: Seq<int>, target: int, next: int) -> bool {
    &&& 0 <= next <= times.len()
    &&& next > 0 ==> times[next - 1] < target
    &&& next < times.len() ==> target <= times[next]
}

/// The number of entries of chronological `times` that are at most `target`.
pub open spec fn upper_bound(times: Seq<int>, target: int) -> int {
    choose|next: int| is_upper_bound(times, target, next)
}

/// The number of entries of chronological `times` that are below `target`.
pub open spec fn lower_bound(times: Seq<int>, target: int) -> int {
    choose|next: int| is_lower_bound(times, target, next)
}

/// Chronological times have one upper bound: the entries in front of it are those that are at most
/// the target.
pub proof fn upper_bound_is(times: Seq<int>, target: int, next: int)
    requires
        is_chronological(times),
        is_upper_bound(times, target, next),
    ensures
        upper_bound(times, target) == next,
        forall|i: int| 0 <= i < times.len() ==> (#[trigger] times[i] <= target <==> i < next),
{
    let other = upper_bound(times, target);
    assert(is_upper_bound(times, target, other));
    assert forall|i: int| 0 <= i < times.len() implies (#[trigger] times[i] <= target <==> i
        < next) by {
        if i < next {
            assert(times[i] <= times[next - 1]);
        } else {
            assert(times[next] <= times[i]);
        }
    }
    if other < next {
        assert(times[other] <= target);
    }
    if next < other {
        assert(times[other - 1] <= target);
    }
}

/// Chronological times have one lower bound: the entries in front of it are those below the
/// target.
pub proof fn lower_bound_is(times: Seq<int>, target: int, next: int)
    requires
        is_chronological(times),
        is_lower_bound(times, target, next),
    ensures
        lower_bound(times, target) == next,
        forall|i: int| 0 <= i < times.len() ==> (#[trigger] times[i] < target <==> i < next),
{
    let other = lower_bound(times, target);
    assert(is_lower_bound(times, target, other));
    assert forall|i: int| 0 <= i < times.len() implies (#[trigger] times[i] < target <==> i
        < next) by {
        if i < next {
            assert(times[i] <= times[next - 1]);
        } else {
            assert(times[next] <= times[i]);
        }
    }
    if other < next {
        assert(times[other] < target);
    }
    if next < other {
        assert(times[other - 1] < target);
    }
}

/// Times have an upper bound.
pub proof fn upper_bound_exists(times: Seq<int>, target: int) -> (next: int)
    ensures
        is_upper_bound(times, target, next),
    decreases times.len(),
{
    if times.len() == 0 || times.last() <= target {
        times.len() as int
    } else {
        upper_bound_exists(times.drop_last(), target)
    }
}

/// Finds by bisection a place where `before` changes among `length` items.
pub fn partition_point<Before: Fn(usize) -> bool>(length: usize, before: Before) -> (next: usize)
    requires
        forall|i: usize| i < length ==> call_requires(before, (i,)),
    ensures
        next <= length,
        next > 0 ==> call_ensures(before, ((next - 1) as usize,), true),
        next < length ==> call_ensures(before, (next,), false),
{
    let mut low: usize = 0;
    let mut high: usize = length;
    while low < high
        invariant
            low <= high <= length,
            forall|i: usize| i < length ==> call_requires(before, (i,)),
            low > 0 ==> call_ensures(before, ((low - 1) as usize,), true),
            high < length ==> call_ensures(before, (high,), false),
        decreases high - low,
    {
        let middle: usize = low + (high - low) / 2;
        if before(middle) {
            low = middle + 1;
        } else {
            high = middle;
        }
    }
    low
}

/// The nearer of two candidates, the first where both are equally near.
pub open spec fn nearest_of<T>(previous: Option<(T, int)>, next: Option<(T, int)>) -> Option<T> {
    match (previous, next) {
        (Some((previous, previous_distance)), Some((next, next_distance))) => Some(
            if previous_distance <= next_distance {
                previous
            } else {
                next
            },
        ),
        (Some((previous, _)), None) => Some(previous),
        (None, Some((next, _))) => Some(next),
        (None, None) => None,
    }
}

/// Picks the nearer of two candidates, the first where both are equally near.
pub fn nearest_by_distance<T, Distance: PartialOrd>(
    previous: Option<(T, Distance)>,
    next: Option<(T, Distance)>,
) -> (nearest: Option<T>)
    ensures
        match (previous, next) {
            (Some((previous, previous_distance)), Some((next, next_distance))) => {
                &&& nearest == Some(previous) || nearest == Some(next)
                &&& Distance::obeys_partial_cmp_spec() ==> nearest == Some(
                    if previous_distance.is_le(&next_distance) {
                        previous
                    } else {
                        next
                    },
                )
            },
            (Some((previous, _)), None) => nearest == Some(previous),
            (None, Some((next, _))) => nearest == Some(next),
            (None, None) => nearest is None,
        },
{
    match (previous, next) {
        (Some((previous, previous_distance)), Some((next, next_distance))) => {
            if previous_distance <= next_distance {
                Some(previous)
            } else {
                Some(next)
            }
        },
        (Some((previous, _)), None) => Some(previous),
        (None, Some((next, _))) => Some(next),
        (None, None) => None,
    }
}

/// Sorted items come from the smallest key to the largest, those with equal keys as they were given.
/// Each position is taken once.
pub proof fn sorted_items_are_in_order<T>(items: Seq<T>, keys: Seq<SortKey>)
    requires
        items.len() == keys.len() <= usize::MAX,
    ensures
        ({
            let sorted = stably_sorted(items, keys);
            let order = stable_order_of(keys);
            &&& sorted.len() == items.len() == order.len()
            &&& forall|i: int|
                0 <= i < sorted.len() ==> #[trigger] order[i] < items.len() && sorted[i]
                    == items[order[i] as int]
            &&& forall|x: usize| x < items.len() ==> #[trigger] order.contains(x)
            &&& forall|i: int, j: int|
                #![trigger order[i], order[j]]
                0 <= i < j < order.len() ==> {
                    let first = keys[order[i] as int];
                    let second = keys[order[j] as int];
                    ||| first.0 < second.0
                    ||| first.0 == second.0 && first.1 < second.1
                    ||| first == second && order[i] < order[j]
                }
        }),
{
    stable_order_exists(keys);
    let order = stable_order_of(keys);
    assert forall|i: int, j: int|
        #![trigger order[i], order[j]]
        0 <= i < j < order.len() implies {
        let first = keys[order[i] as int];
        let second = keys[order[j] as int];
        ||| first.0 < second.0
        ||| first.0 == second.0 && first.1 < second.1
        ||| first == second && order[i] < order[j]
    } by {
        assert(precedes(keys, order[i] as int, order[j] as int));
    }
}

/// Of two candidates the nearer one is picked, the first where both are equally near, and of one
/// candidate that one.
pub proof fn nearer_candidate_is_picked<T>(first: T, first_gap: int, second: T, second_gap: int)
    ensures
        first_gap <= second_gap ==> nearest_of(
            Some((first, first_gap)),
            Some((second, second_gap)),
        ) == Some(first),
        first_gap > second_gap ==> nearest_of(
            Some((first, first_gap)),
            Some((second, second_gap)),
        ) == Some(second),
        nearest_of(Some((first, first_gap)), None) == Some(first),
        nearest_of(None, Some((second, second_gap))) == Some(second),
        nearest_of::<T>(None, None) is None,
{
}

} // verus!

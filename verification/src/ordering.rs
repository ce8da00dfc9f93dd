//! Stable sorting by an integer key.
//!
//! `stable_sorted` says what the sorted sequence is; `stable_order` computes
//! the positions of its elements, so that values of any type can be put in
//! order by moving them.

use vstd::prelude::*;

verus! {

/// `sorted` with `x` put behind every element whose key is at most `x`'s key.
pub open spec fn insert_sorted<T>(sorted: Seq<T>, x: T, key: spec_fn(T) -> int) -> Seq<T>
    decreases sorted.len(),
{
    if sorted.len() == 0 || key(sorted.last()) <= key(x) {
        sorted.push(x)
    } else {
        insert_sorted(sorted.drop_last(), x, key).push(sorted.last())
    }
}

/// The elements of `s` in ascending order of their keys; elements of equal key
/// stand in the order that they have in `s`.
pub open spec fn stable_sorted<T>(s: Seq<T>, key: spec_fn(T) -> int) -> Seq<T>
    decreases s.len(),
{
    if s.len() == 0 {
        Seq::empty()
    } else {
        insert_sorted(stable_sorted(s.drop_last(), key), s.last(), key)
    }
}

/// No element of `s` has a smaller key than one before it.
pub open spec fn is_sorted_by<T>(s: Seq<T>, key: spec_fn(T) -> int) -> bool {
    forall|i: int, j: int| 0 <= i <= j < s.len() ==> key(#[trigger] s[i]) <= key(#[trigger] s[j])
}

/// The elements of `s` whose key is `k`, in the order of `s`.
pub open spec fn with_key<T>(s: Seq<T>, key: spec_fn(T) -> int, k: int) -> Seq<T> {
    s.filter(|x: T| key(x) == k)
}

/// The positions of a sequence of length `n`.
pub open spec fn positions(n: nat) -> Seq<usize> {
    Seq::new(n, |i: int| i as usize)
}

proof fn lemma_insert_sorted<T>(sorted: Seq<T>, x: T, key: spec_fn(T) -> int)
    requires
        is_sorted_by(sorted, key),
    ensures
        is_sorted_by(insert_sorted(sorted, x, key), key),
        insert_sorted(sorted, x, key).len() == sorted.len() + 1,
        insert_sorted(sorted, x, key).to_multiset() == sorted.to_multiset().insert(x),
        forall|k: int| #[trigger]
            with_key(insert_sorted(sorted, x, key), key, k) == with_key(sorted.push(x), key, k),
        sorted.len() > 0 ==> key(insert_sorted(sorted, x, key).last()) == if key(sorted.last())
            <= key(x) {
            key(x)
        } else {
            key(sorted.last())
        },
    decreases sorted.len(),
{
    broadcast use vstd::seq_lib::group_to_multiset_ensures;

    if sorted.len() == 0 || key(sorted.last()) <= key(x) {
    } else {
        let front = sorted.drop_last();
        lemma_insert_sorted(front, x, key);
        let below = insert_sorted(front, x, key);
        assert(sorted =~= front.push(sorted.last()));
        assert forall|k: int| #[trigger]
            with_key(insert_sorted(sorted, x, key), key, k) == with_key(
            sorted.push(x),
            key,
            k,
        ) by {
            let p = |y: T| key(y) == k;
            below.lemma_filter_push(sorted.last(), p);
            front.lemma_filter_push(x, p);
            front.lemma_filter_push(sorted.last(), p);
            sorted.lemma_filter_push(x, p);
            assert(with_key(below, key, k) == with_key(front.push(x), key, k));
        }
        assert(sorted.to_multiset() =~= front.to_multiset().insert(sorted.last()));
        assert(insert_sorted(sorted, x, key).to_multiset() =~= sorted.to_multiset().insert(x));
    }
}

/// Sorting keeps the elements, puts the keys in ascending order, and keeps the
/// order of elements with equal keys.
pub proof fn lemma_stable_sorted<T>(s: Seq<T>, key: spec_fn(T) -> int)
    ensures
        is_sorted_by(stable_sorted(s, key), key),
        stable_sorted(s, key).len() == s.len(),
        stable_sorted(s, key).to_multiset() == s.to_multiset(),
        forall|k: int| #[trigger] with_key(stable_sorted(s, key), key, k) == with_key(s, key, k),
    decreases s.len(),
{
    broadcast use vstd::seq_lib::group_to_multiset_ensures;

    if s.len() == 0 {
        assert(s =~= Seq::empty());
    } else {
        let front = s.drop_last();
        lemma_stable_sorted(front, key);
        let sorted = stable_sorted(front, key);
        lemma_insert_sorted(sorted, s.last(), key);
        assert(s =~= front.push(s.last()));
        assert forall|k: int| #[trigger]
            with_key(stable_sorted(s, key), key, k) == with_key(s, key, k) by {
            let p = |y: T| key(y) == k;
            sorted.lemma_filter_push(s.last(), p);
            front.lemma_filter_push(s.last(), p);
            assert(with_key(sorted, key, k) == with_key(front, key, k));
            assert(with_key(stable_sorted(s, key), key, k) == with_key(
                sorted.push(s.last()),
                key,
                k,
            ));
        }
    }
}

proof fn lemma_with_key_last<T>(s: Seq<T>, key: spec_fn(T) -> int)
    requires
        s.len() > 0,
    ensures
        with_key(s, key, key(s.last())).len() > 0,
        with_key(s, key, key(s.last())).last() == s.last(),
        with_key(s.drop_last(), key, key(s.last())) == with_key(
            s,
            key,
            key(s.last()),
        ).drop_last(),
        forall|k: int|
            k != key(s.last()) ==> #[trigger] with_key(s.drop_last(), key, k) == with_key(
                s,
                key,
                k,
            ),
{
    assert(s =~= s.drop_last().push(s.last()));
    let p = |y: T| key(y) == key(s.last());
    s.drop_last().lemma_filter_push(s.last(), p);
    assert(with_key(s.drop_last(), key, key(s.last())).push(s.last()).drop_last() =~= with_key(
        s.drop_last(),
        key,
        key(s.last()),
    ));
    assert forall|k: int| k != key(s.last()) implies #[trigger] with_key(s.drop_last(), key, k)
        == with_key(s, key, k) by {
        s.drop_last().lemma_filter_push(s.last(), |y: T| key(y) == k);
    }
}

proof fn lemma_with_key_member<T>(s: Seq<T>, key: spec_fn(T) -> int, k: int)
    requires
        with_key(s, key, k).len() > 0,
    ensures
        exists|i: int| 0 <= i < s.len() && key(#[trigger] s[i]) == k,
    decreases s.len(),
{
    reveal(Seq::filter);
    if s.len() > 0 && key(s.last()) != k {
        lemma_with_key_member(s.drop_last(), key, k);
        let i = choose|i: int|
            0 <= i < s.drop_last().len() && key(#[trigger] s.drop_last()[i]) == k;
        assert(key(s[i]) == k);
    }
}

/// Two sorted sequences with the same elements in the same order for each key
/// are equal.
proof fn lemma_stable_unique<T>(a: Seq<T>, b: Seq<T>, key: spec_fn(T) -> int)
    requires
        is_sorted_by(a, key),
        is_sorted_by(b, key),
        forall|k: int| #[trigger] with_key(a, key, k) == with_key(b, key, k),
    ensures
        a == b,
    decreases a.len(),
{
    if a.len() == 0 {
        if b.len() > 0 {
            lemma_with_key_last(b, key);
            assert(with_key(a, key, key(b.last())) == with_key(b, key, key(b.last())));
            lemma_with_key_member(a, key, key(b.last()));
        }
        assert(a =~= b);
    } else {
        lemma_with_key_last(a, key);
        assert(with_key(a, key, key(a.last())) == with_key(b, key, key(a.last())));
        lemma_with_key_member(b, key, key(a.last()));
        lemma_with_key_last(b, key);
        assert(with_key(a, key, key(b.last())) == with_key(b, key, key(b.last())));
        lemma_with_key_member(a, key, key(b.last()));
        assert(key(a.last()) == key(b.last()));
        assert forall|k: int| #[trigger]
            with_key(a.drop_last(), key, k) == with_key(b.drop_last(), key, k) by {
            assert(with_key(a, key, k) == with_key(b, key, k));
            if k != key(a.last()) {
                assert(with_key(b.drop_last(), key, k) == with_key(b, key, k));
            }
        }
        lemma_stable_unique(a.drop_last(), b.drop_last(), key);
        assert(a =~= a.drop_last().push(a.last()));
        assert(b =~= b.drop_last().push(b.last()));
    }
}

proof fn lemma_insert_sorted_map<A, B>(
    sorted: Seq<A>,
    x: A,
    f: spec_fn(A) -> B,
    key: spec_fn(B) -> int,
)
    ensures
        insert_sorted(sorted.map_values(f), f(x), key) == insert_sorted(
            sorted,
            x,
            |a: A| key(f(a)),
        ).map_values(f),
    decreases sorted.len(),
{
    let inner = |a: A| key(f(a));
    if sorted.len() == 0 || inner(sorted.last()) <= inner(x) {
        assert(sorted.push(x).map_values(f) =~= sorted.map_values(f).push(f(x)));
    } else {
        lemma_insert_sorted_map(sorted.drop_last(), x, f, key);
        assert(sorted.map_values(f).drop_last() =~= sorted.drop_last().map_values(f));
        assert(insert_sorted(sorted.drop_last(), x, inner).push(sorted.last()).map_values(f)
            =~= insert_sorted(sorted.drop_last(), x, inner).map_values(f).push(f(sorted.last())));
    }
}

/// Sorting commutes with a map that carries the keys along.
pub proof fn lemma_stable_sorted_map<A, B>(s: Seq<A>, f: spec_fn(A) -> B, key: spec_fn(B) -> int)
    ensures
        stable_sorted(s.map_values(f), key) == stable_sorted(s, |a: A| key(f(a))).map_values(f),
    decreases s.len(),
{
    let inner = |a: A| key(f(a));
    if s.len() == 0 {
        assert(stable_sorted(s, inner).map_values(f) =~= Seq::empty());
    } else {
        lemma_stable_sorted_map(s.drop_last(), f, key);
        assert(s.map_values(f).drop_last() =~= s.drop_last().map_values(f));
        lemma_insert_sorted_map(stable_sorted(s.drop_last(), inner), s.last(), f, key);
    }
}

/// The key of position `i`.
pub open spec fn key_at(keys: Seq<i128>) -> spec_fn(usize) -> int {
    |i: usize| keys[i as int] as int
}

/// Merges two sorted runs of positions; on equal keys the left run comes first.
fn merge_runs(left: &Vec<usize>, right: &Vec<usize>, keys: &Vec<i128>) -> (merged: Vec<usize>)
    requires
        is_sorted_by(left@, key_at(keys@)),
        is_sorted_by(right@, key_at(keys@)),
        forall|i: int| 0 <= i < left.len() ==> #[trigger] left@[i] < keys.len(),
        forall|i: int| 0 <= i < right.len() ==> #[trigger] right@[i] < keys.len(),
        left.len() + right.len() <= keys.len(),
    ensures
        is_sorted_by(merged@, key_at(keys@)),
        merged.len() == left.len() + right.len(),
        forall|i: int| 0 <= i < merged.len() ==> #[trigger] merged@[i] < keys.len(),
        forall|k: int| #[trigger]
            with_key(merged@, key_at(keys@), k) == with_key(left@ + right@, key_at(keys@), k),
{
    let ghost key = key_at(keys@);
    let mut merged: Vec<usize> = Vec::with_capacity(left.len() + right.len());
    let mut i: usize = 0;
    let mut j: usize = 0;
    while i < left.len() || j < right.len()
        invariant
            key == key_at(keys@),
            i <= left.len(),
            j <= right.len(),
            merged.len() == i + j,
            left.len() + right.len() <= keys.len(),
            is_sorted_by(left@, key),
            is_sorted_by(right@, key),
            is_sorted_by(merged@, key),
            forall|n: int| 0 <= n < left.len() ==> #[trigger] left@[n] < keys.len(),
            forall|n: int| 0 <= n < right.len() ==> #[trigger] right@[n] < keys.len(),
            forall|n: int| 0 <= n < merged.len() ==> #[trigger] merged@[n] < keys.len(),
            forall|n: int, m: int|
                0 <= n < merged.len() && i <= m < left.len() ==> key(#[trigger] merged@[n]) <= key(
                    #[trigger] left@[m],
                ),
            forall|n: int, m: int|
                0 <= n < merged.len() && j <= m < right.len() ==> key(#[trigger] merged@[n]) <= key(
                    #[trigger] right@[m],
                ),
            forall|n: int, m: int|
                0 <= n < j && i <= m < left.len() ==> key(#[trigger] right@[n]) < key(
                    #[trigger] left@[m],
                ),
            forall|k: int| #[trigger]
                with_key(merged@, key, k) == with_key(left@.take(i as int), key, k) + with_key(
                    right@.take(j as int),
                    key,
                    k,
                ),
        decreases left.len() + right.len() - i - j,
    {
        let take_left: bool = if i >= left.len() {
            false
        } else if j >= right.len() {
            true
        } else {
            keys[left[i]] <= keys[right[j]]
        };
        let ghost before = merged@;
        if take_left {
            proof {
                let x = left@[i as int];
                assert(left@.take(i + 1) =~= left@.take(i as int).push(x));
                assert forall|k: int| #[trigger]
                    with_key(before.push(x), key, k) == with_key(left@.take(i + 1), key, k)
                        + with_key(right@.take(j as int), key, k) by {
                    let p = |y: usize| key(y) == k;
                    before.lemma_filter_push(x, p);
                    left@.take(i as int).lemma_filter_push(x, p);
                    assert(with_key(before, key, k) == with_key(left@.take(i as int), key, k)
                        + with_key(right@.take(j as int), key, k));
                    if k == key(x) {
                        if with_key(right@.take(j as int), key, k).len() > 0 {
                            lemma_with_key_member(right@.take(j as int), key, k);
                            let n = choose|n: int|
                                0 <= n < right@.take(j as int).len() && key(
                                    #[trigger] right@.take(j as int)[n],
                                ) == k;
                            assert(key(right@[n]) < key(left@[i as int]));
                        }
                        assert(with_key(before.push(x), key, k) =~= with_key(
                            left@.take(i + 1),
                            key,
                            k,
                        ) + with_key(right@.take(j as int), key, k));
                    }
                }
            }
            merged.push(left[i]);
            i = i + 1;
        } else {
            proof {
                let x = right@[j as int];
                assert(right@.take(j + 1) =~= right@.take(j as int).push(x));
                assert forall|k: int| #[trigger]
                    with_key(before.push(x), key, k) == with_key(left@.take(i as int), key, k)
                        + with_key(right@.take(j + 1), key, k) by {
                    let p = |y: usize| key(y) == k;
                    before.lemma_filter_push(x, p);
                    right@.take(j as int).lemma_filter_push(x, p);
                    assert(with_key(before, key, k) == with_key(left@.take(i as int), key, k)
                        + with_key(right@.take(j as int), key, k));
                    assert(with_key(before.push(x), key, k) =~= with_key(
                        left@.take(i as int),
                        key,
                        k,
                    ) + with_key(right@.take(j + 1), key, k));
                }
            }
            merged.push(right[j]);
            j = j + 1;
        }
    }
    proof {
        assert(left@.take(i as int) =~= left@);
        assert(right@.take(j as int) =~= right@);
        assert forall|k: int| #[trigger]
            with_key(merged@, key, k) == with_key(left@ + right@, key, k) by {
            Seq::filter_distributes_over_add(left@, right@, |y: usize| key(y) == k);
        }
    }
    merged
}

/// The positions `low..high` of `keys` in stable ascending order of their keys.
fn order_run(keys: &Vec<i128>, low: usize, high: usize) -> (order: Vec<usize>)
    requires
        low <= high <= keys.len(),
    ensures
        is_sorted_by(order@, key_at(keys@)),
        order.len() == high - low,
        forall|i: int| 0 <= i < order.len() ==> #[trigger] order@[i] < keys.len(),
        forall|k: int| #[trigger]
            with_key(order@, key_at(keys@), k) == with_key(
                positions(keys.len() as nat).subrange(low as int, high as int),
                key_at(keys@),
                k,
            ),
    decreases high - low,
{
    let ghost all = positions(keys.len() as nat);
    if high - low < 2 {
        let mut order: Vec<usize> = Vec::new();
        if low < high {
            order.push(low);
        }
        assert(order@ =~= all.subrange(low as int, high as int));
        order
    } else {
        let middle: usize = low + (high - low) / 2;
        let left = order_run(keys, low, middle);
        let right = order_run(keys, middle, high);
        let order = merge_runs(&left, &right, keys);
        proof {
            let key = key_at(keys@);
            let a = all.subrange(low as int, middle as int);
            let b = all.subrange(middle as int, high as int);
            assert(a + b =~= all.subrange(low as int, high as int));
            assert forall|k: int| #[trigger]
                with_key(order@, key, k) == with_key(
                all.subrange(low as int, high as int),
                key,
                k,
            ) by {
                let p = |y: usize| key(y) == k;
                assert(with_key(order@, key, k) == with_key(left@ + right@, key, k));
                Seq::filter_distributes_over_add(left@, right@, p);
                Seq::filter_distributes_over_add(a, b, p);
                assert(with_key(left@, key, k) == with_key(a, key, k));
                assert(with_key(right@, key, k) == with_key(b, key, k));
            }
        }
        order
    }
}

/// The positions of `keys` in ascending order of their keys, equal keys in the
/// order of their positions.
pub fn stable_order(keys: &Vec<i128>) -> (order: Vec<usize>)
    ensures
        order@ == stable_sorted(positions(keys.len() as nat), key_at(keys@)),
        order.len() == keys.len(),
        forall|i: int| 0 <= i < order.len() ==> #[trigger] order@[i] < keys.len(),
{
    let order = order_run(keys, 0, keys.len());
    proof {
        let all = positions(keys.len() as nat);
        let key = key_at(keys@);
        assert(all.subrange(0, keys.len() as int) =~= all);
        lemma_stable_sorted(all, key);
        assert forall|k: int| #[trigger]
            with_key(order@, key, k) == with_key(stable_sorted(all, key), key, k) by {
            assert(with_key(stable_sorted(all, key), key, k) == with_key(all, key, k));
        }
        lemma_stable_unique(order@, stable_sorted(all, key), key);
    }
    order
}

proof fn lemma_insert_sorted_same_keys<T>(
    sorted: Seq<T>,
    x: T,
    a: spec_fn(T) -> int,
    b: spec_fn(T) -> int,
)
    requires
        a(x) == b(x),
        forall|i: int| 0 <= i < sorted.len() ==> a(#[trigger] sorted[i]) == b(sorted[i]),
    ensures
        insert_sorted(sorted, x, a) == insert_sorted(sorted, x, b),
    decreases sorted.len(),
{
    if sorted.len() > 0 {
        assert(sorted.last() == sorted[sorted.len() - 1]);
        lemma_insert_sorted_same_keys(sorted.drop_last(), x, a, b);
    }
}

/// Sorting leaves what is in order as it is.
pub proof fn lemma_sorted_stays<T>(s: Seq<T>, key: spec_fn(T) -> int)
    requires
        is_sorted_by(s, key),
    ensures
        stable_sorted(s, key) == s,
    decreases s.len(),
{
    if s.len() > 0 {
        let front = s.drop_last();
        assert forall|i: int, j: int| 0 <= i <= j < front.len() implies key(#[trigger] front[i])
            <= key(#[trigger] front[j]) by {
            assert(key(s[i]) <= key(s[j]));
        }
        lemma_sorted_stays(front, key);
        if front.len() > 0 {
            assert(key(s[s.len() - 2]) <= key(s[s.len() - 1]));
        }
        assert(front.push(s.last()) =~= s);
    } else {
        assert(stable_sorted(s, key) =~= s);
    }
}

/// The elements of a sorted sequence are those of the unsorted one.
pub proof fn lemma_stable_sorted_contains<T>(s: Seq<T>, key: spec_fn(T) -> int, x: T)
    ensures
        stable_sorted(s, key).contains(x) <==> s.contains(x),
{
    broadcast use vstd::seq_lib::group_to_multiset_ensures;

    lemma_stable_sorted(s, key);
    assert(s.contains(x) <==> s.to_multiset().count(x) > 0);
    assert(stable_sorted(s, key).contains(x) <==> stable_sorted(s, key).to_multiset().count(x)
        > 0);
}

proof fn lemma_stable_sorted_same_keys<T>(s: Seq<T>, a: spec_fn(T) -> int, b: spec_fn(T) -> int)
    requires
        forall|i: int| 0 <= i < s.len() ==> a(#[trigger] s[i]) == b(s[i]),
    ensures
        stable_sorted(s, a) == stable_sorted(s, b),
    decreases s.len(),
{
    if s.len() > 0 {
        let front = s.drop_last();
        lemma_stable_sorted_same_keys(front, a, b);
        let sorted = stable_sorted(front, a);
        assert forall|i: int| 0 <= i < sorted.len() implies a(#[trigger] sorted[i]) == b(
            sorted[i],
        ) by {
            assert(sorted.contains(sorted[i]));
            lemma_stable_sorted_contains(front, a, sorted[i]);
            let j = choose|j: int| 0 <= j < front.len() && front[j] == sorted[i];
            assert(a(s[j]) == b(s[j]));
        }
        lemma_insert_sorted_same_keys(sorted, s.last(), a, b);
    }
}

/// Moving items to the places that `stable_order` gives sorts them.
pub proof fn lemma_order_sorts<T>(items: Seq<T>, keys: Seq<i128>, key: spec_fn(T) -> int)
    requires
        items.len() == keys.len(),
        items.len() <= usize::MAX,
        forall|i: int| 0 <= i < items.len() ==> keys[i] == key(#[trigger] items[i]),
    ensures
        stable_sorted(items, key) == stable_sorted(
            positions(keys.len() as nat),
            key_at(keys),
        ).map_values(|i: usize| items[i as int]),
{
    let all = positions(keys.len() as nat);
    let f = |i: usize| items[i as int];
    assert(all.map_values(f) =~= items);
    lemma_stable_sorted_map(all, f, key);
    let inner = |i: usize| key(f(i));
    assert forall|i: int| 0 <= i < all.len() implies inner(#[trigger] all[i]) == key_at(keys)(
        all[i],
    ) by {
        assert(keys[i] == key(items[i]));
    }
    lemma_stable_sorted_same_keys(all, inner, key_at(keys));
}

/// `items` sorted by `keys`, the key of each item at the item's position.
pub fn sort_copies<T: Copy>(items: &Vec<T>, keys: &Vec<i128>) -> (sorted: Vec<T>)
    requires
        items.len() == keys.len(),
    ensures
        sorted@ == stable_sorted(positions(keys.len() as nat), key_at(keys@)).map_values(
            |i: usize| items@[i as int],
        ),
{
    let order = stable_order(keys);
    let mut sorted: Vec<T> = Vec::with_capacity(items.len());
    let mut i: usize = 0;
    while i < order.len()
        invariant
            i <= order.len(),
            sorted.len() == i,
            items.len() == keys.len(),
            forall|n: int| 0 <= n < order.len() ==> #[trigger] order@[n] < keys.len(),
            forall|n: int| 0 <= n < i ==> #[trigger] sorted@[n] == items@[order@[n] as int],
        decreases order.len() - i,
    {
        sorted.push(items[order[i]]);
        i = i + 1;
    }
    assert(sorted@ =~= order@.map_values(|i: usize| items@[i as int]));
    sorted
}

/// The elements with the key `k` are those that a test picks which says just that.
pub proof fn lemma_with_key_is_filter<T>(
    s: Seq<T>,
    key: spec_fn(T) -> int,
    k: int,
    p: spec_fn(T) -> bool,
)
    requires
        forall|x: T| #[trigger] p(x) == (key(x) == k),
    ensures
        with_key(s, key, k) == s.filter(p),
    decreases s.len(),
{
    reveal(Seq::filter);
    if s.len() > 0 {
        lemma_with_key_is_filter(s.drop_last(), key, k, p);
        assert(p(s.last()) == (key(s.last()) == k));
    }
}

} // verus!

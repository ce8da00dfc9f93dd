//! Facts about sequences that the loops of the library rest on.

use vstd::prelude::*;

verus! {

/// The first `n` elements of `s`, or all of them where there are fewer.
pub open spec fn first<T>(s: Seq<T>, n: nat) -> Seq<T> {
    if n < s.len() {
        s.take(n as int)
    } else {
        s
    }
}

/// Filtering one element more.
pub proof fn lemma_filter_step<T>(s: Seq<T>, i: int, p: spec_fn(T) -> bool)
    requires
        0 <= i < s.len(),
    ensures
        s.take(i + 1).filter(p) == if p(s[i]) {
            s.take(i).filter(p).push(s[i])
        } else {
            s.take(i).filter(p)
        },
{
    assert(s.take(i + 1) =~= s.take(i).push(s[i]));
    s.take(i).lemma_filter_push(s[i], p);
}

/// What a filter leaves of a prefix is a prefix of what it leaves of the whole.
pub proof fn lemma_filter_prefix<T>(s: Seq<T>, i: int, p: spec_fn(T) -> bool)
    requires
        0 <= i <= s.len(),
    ensures
        s.take(i).filter(p).len() <= s.filter(p).len(),
        s.filter(p).take(s.take(i).filter(p).len() as int) == s.take(i).filter(p),
{
    assert(s =~= s.take(i) + s.skip(i));
    Seq::filter_distributes_over_add(s.take(i), s.skip(i), p);
    assert((s.take(i).filter(p) + s.skip(i).filter(p)).take(s.take(i).filter(p).len() as int)
        =~= s.take(i).filter(p));
}

/// Filtering and mapping one element more.
pub proof fn lemma_filter_map_step<A, B>(s: Seq<A>, i: int, f: spec_fn(A) -> Option<B>)
    requires
        0 <= i < s.len(),
    ensures
        s.take(i + 1).filter_map(f) == match f(s[i]) {
            Some(b) => s.take(i).filter_map(f).push(b),
            None => s.take(i).filter_map(f),
        },
{
    assert(s.take(i + 1).drop_last() =~= s.take(i));
    if let Some(b) = f(s[i]) {
        assert(s.take(i).filter_map(f) + seq![b] =~= s.take(i).filter_map(f).push(b));
    }
}

/// Filtering and mapping two sequences joined is doing so with each, and joining.
pub proof fn lemma_filter_map_add<A, B>(a: Seq<A>, b: Seq<A>, f: spec_fn(A) -> Option<B>)
    ensures
        (a + b).filter_map(f) == a.filter_map(f) + b.filter_map(f),
    decreases b.len(),
{
    if b.len() == 0 {
        assert(a + b =~= a);
        assert(a.filter_map(f) + b.filter_map(f) =~= a.filter_map(f));
    } else {
        lemma_filter_map_add(a, b.drop_last(), f);
        assert((a + b).drop_last() =~= a + b.drop_last());
        assert((a + b).filter_map(f) =~= a.filter_map(f) + b.filter_map(f));
    }
}

/// Mapping one element more.
pub proof fn lemma_map_step<A, B>(s: Seq<A>, i: int, f: spec_fn(A) -> B)
    requires
        0 <= i < s.len(),
    ensures
        s.take(i + 1).map_values(f) == s.take(i).map_values(f).push(f(s[i])),
{
    assert(s.take(i + 1).map_values(f) =~= s.take(i).map_values(f).push(f(s[i])));
}

/// Each element of `s` once, where it comes first.
pub open spec fn first_of_each<T>(s: Seq<T>) -> Seq<T>
    decreases s.len(),
{
    if s.len() == 0 {
        Seq::empty()
    } else {
        let before = first_of_each(s.drop_last());
        if before.contains(s.last()) {
            before
        } else {
            before.push(s.last())
        }
    }
}

/// Nothing is lost and nothing is left twice.
pub proof fn lemma_first_of_each<T>(s: Seq<T>)
    ensures
        first_of_each(s).no_duplicates(),
        forall|x: T| first_of_each(s).contains(x) <==> s.contains(x),
    decreases s.len(),
{
    if s.len() > 0 {
        let front = s.drop_last();
        let last = s.last();
        let before = first_of_each(front);
        lemma_first_of_each(front);
        assert forall|x: T| first_of_each(s).contains(x) <==> s.contains(x) by {
            vstd::seq_lib::lemma_seq_contains_after_push(front, last, x);
            vstd::seq_lib::lemma_seq_contains_after_push(before, last, x);
            assert(s =~= front.push(last));
        }
    }
}

/// The next of several distinct elements is not among those before it.
pub proof fn lemma_next_is_new<T>(s: Seq<T>, i: int)
    requires
        s.no_duplicates(),
        0 <= i < s.len(),
    ensures
        !s.take(i).contains(s[i]),
{
    if s.take(i).contains(s[i]) {
        let j = choose|j: int| 0 <= j < s.take(i).len() && s.take(i)[j] == s[i];
        assert(s[j] == s[i]);
    }
}

/// One element more: what a prefix holds, in order and as a set.
pub proof fn lemma_one_more<T>(s: Seq<T>, i: int)
    requires
        0 <= i < s.len(),
    ensures
        s.take(i + 1) == s.take(i).push(s[i]),
        s.take(i + 1).to_set() == s.take(i).to_set().insert(s[i]),
        s.to_set().contains(s[i]),
        forall|x: T| s.take(i + 1).contains(x) <==> s.take(i).contains(x) || x == s[i],
{
    let seen = s.take(i);
    let more = s.take(i + 1);
    assert(more =~= seen.push(s[i]));
    seen.lemma_push_to_set_commute(s[i]);
    assert forall|x: T| more.contains(x) <==> seen.contains(x) || x == s[i] by {
        vstd::seq_lib::lemma_seq_contains_after_push(seen, s[i], x);
    }
}

/// The items in reverse order, so that the first can be taken from the end.
pub fn reversed<T>(items: Vec<T>) -> (reversed: Vec<T>)
    ensures
        reversed@ == items@.reverse(),
{
    let ghost all = items@;
    let mut items = items;
    let mut reversed: Vec<T> = Vec::with_capacity(items.len());
    while items.len() > 0
        invariant
            items@.len() + reversed@.len() == all.len(),
            items@ == all.take(items@.len() as int),
            forall|i: int|
                0 <= i < reversed@.len() ==> #[trigger] reversed@[i] == all[all.len() - 1 - i],
        decreases items@.len(),
    {
        let ghost before = items@;
        if let Some(last) = items.pop() {
            assert(last == all[before.len() - 1]);
            reversed.push(last);
        }
        assert(items@ =~= all.take(items@.len() as int));
    }
    assert(reversed@ =~= all.reverse());
    reversed
}

} // verus!

//! Components that pick the best candidates.

use vstd::prelude::*;

use crate::candidate_pipeline::component::Component;
use crate::ordering::{
    key_at, lemma_order_sorts, lemma_stable_sorted, positions, stable_order, stable_sorted,
};
use crate::score::Score;
use crate::seqs::reversed;

verus! {

/// How many candidates at the front of `s` have a score that is a number.
pub open spec fn leading_numbers<C>(s: Seq<C>, score: spec_fn(C) -> Score) -> nat
    decreases s.len(),
{
    if s.len() == 0 || score(s[0]).is_nan() {
        0
    } else {
        1 + leading_numbers(s.drop_first(), score)
    }
}

/// `s` by descending score. Candidates of equal score keep their order. One
/// whose score is not a number stays where it is, and the candidates on either
/// side of it are put in order among themselves.
pub open spec fn sorted_by_score<C>(s: Seq<C>, score: spec_fn(C) -> Score) -> Seq<C>
    decreases s.len(),
{
    let n = leading_numbers(s, score) as int;
    let run = stable_sorted(s.take(n), |c: C| -score(c).rank());
    if s.len() == 0 {
        s
    } else if n >= s.len() {
        run
    } else {
        run.push(s[n]) + sorted_by_score(s.skip(n + 1), score)
    }
}

/// A component that picks the best candidates: by descending score, and no more
/// than `size` of them where it has one.
pub trait Selector<Q, C>: Component<Q> + Sized {
    /// The score that a candidate is picked by.
    spec fn score_of(&self, candidate: C) -> Score;

    /// How many candidates are picked at most; `None` for all.
    spec fn limit(&self) -> Option<usize>;

    /// The score that a candidate is picked by.
    fn score(&self, candidate: &C) -> (score: Score)
        ensures
            score == self.score_of(*candidate),
    ;

    /// How many candidates are picked at most; `None` for all.
    fn size(&self) -> (size: Option<usize>)
        ensures
            size == self.limit(),
    ;

    /// The candidates by descending score.
    fn sort(&self, candidates: Vec<C>) -> (sorted: Vec<C>)
        ensures
            sorted@ == sorted_by_score(candidates@, |c: C| self.score_of(c)),
    {
        let mut scores: Vec<Score> = Vec::with_capacity(candidates.len());
        let mut i: usize = 0;
        while i < candidates.len()
            invariant
                i <= candidates.len(),
                scores@.len() == i,
                forall|n: int|
                    0 <= n < i ==> #[trigger] scores@[n] == self.score_of(candidates@[n]),
            decreases candidates.len() - i,
        {
            scores.push(self.score(&candidates[i]));
            i = i + 1;
        }
        let ghost score = |c: C| self.score_of(c);
        assert forall|n: int| 0 <= n < candidates@.len() implies #[trigger] scores@[n] == score(
            candidates@[n],
        ) by {}
        sort_by_score(candidates, scores, Ghost(score))
    }

    /// The candidates that are picked.
    fn select(&self, query: &Q, candidates: Vec<C>) -> (chosen: Vec<C>)
        ensures
            chosen@ == picked(candidates@, |c: C| self.score_of(c), self.limit()),
    {
        let mut sorted = self.sort(candidates);
        if let Some(limit) = self.size() {
            sorted.truncate(limit);
        }
        sorted
    }
}

/// The candidates that are picked by their score: at most `limit`, where there
/// is one.
pub open spec fn picked<C>(
    candidates: Seq<C>,
    score: spec_fn(C) -> Score,
    limit: Option<usize>,
) -> Seq<C> {
    let sorted = sorted_by_score(candidates, score);
    match limit {
        Some(limit) => if limit < sorted.len() {
            sorted.take(limit as int)
        } else {
            sorted
        },
        None => sorted,
    }
}

/// Moves the items to the places that `order` gives: the item at `order[i]` goes
/// to place `i`.
fn rearrange<T>(items: Vec<T>, order: &Vec<usize>) -> (moved: Vec<T>)
    requires
        order@.no_duplicates(),
        forall|i: int| 0 <= i < order@.len() ==> #[trigger] order@[i] < items@.len(),
    ensures
        moved@ == order@.map_values(|i: usize| items@[i as int]),
{
    let ghost all = items@;
    let mut slots: Vec<Option<T>> = Vec::with_capacity(items.len());
    let mut upcoming = reversed(items);
    while upcoming.len() > 0
        invariant
            slots@.len() + upcoming@.len() == all.len(),
            forall|i: int|
                0 <= i < upcoming@.len() ==> #[trigger] upcoming@[i] == all[all.len() - 1 - i],
            forall|i: int| 0 <= i < slots@.len() ==> #[trigger] slots@[i] == Some(all[i]),
        decreases upcoming@.len(),
    {
        let ghost before = upcoming@;
        if let Some(next) = upcoming.pop() {
            assert(next == all[all.len() - before.len()]);
            slots.push(Some(next));
        }
    }
    let mut moved: Vec<T> = Vec::with_capacity(order.len());
    let mut i: usize = 0;
    while i < order.len()
        invariant
            i <= order.len(),
            slots@.len() == all.len(),
            order@.no_duplicates(),
            forall|n: int| 0 <= n < order@.len() ==> #[trigger] order@[n] < all.len(),
            forall|n: int|
                i <= n < order@.len() ==> slots@[#[trigger] order@[n] as int] == Some(
                    all[order@[n] as int],
                ),
            moved@.len() == i,
            forall|n: int| 0 <= n < i ==> #[trigger] moved@[n] == all[order@[n] as int],
        decreases order.len() - i,
    {
        let from = order[i];
        assert(slots@[order@[i as int] as int] == Some(all[order@[i as int] as int]));
        let mut taken: Option<T> = None;
        std::mem::swap(&mut taken, &mut slots[from]);
        if let Some(item) = taken {
            moved.push(item);
        }
        i = i + 1;
    }
    assert(moved@ =~= order@.map_values(|i: usize| all[i as int]));
    moved
}

proof fn lemma_order_has_no_duplicates(keys: Seq<i128>)
    requires
        keys.len() <= usize::MAX,
    ensures
        stable_sorted(positions(keys.len() as nat), key_at(keys)).no_duplicates(),
{
    let all = positions(keys.len() as nat);
    lemma_stable_sorted(all, key_at(keys));
    assert(all.no_duplicates());
    all.lemma_multiset_has_no_duplicates();
    stable_sorted(all, key_at(keys)).lemma_multiset_has_no_duplicates_conv();
}

/// A run of candidates by descending score; `scores` holds the score of each.
fn sort_run<C>(run: Vec<C>, scores: &Vec<Score>, Ghost(score): Ghost<spec_fn(C) -> Score>) -> (
    sorted: Vec<C>)
    requires
        run@.len() == scores@.len(),
        forall|i: int| 0 <= i < run@.len() ==> #[trigger] scores@[i] == score(run@[i]),
    ensures
        sorted@ == stable_sorted(run@, |c: C| -score(c).rank()),
{
    let ghost key = |c: C| -score(c).rank();
    let mut keys: Vec<i128> = Vec::with_capacity(scores.len());
    let mut i: usize = 0;
    while i < scores.len()
        invariant
            i <= scores.len(),
            keys@.len() == i,
            forall|n: int| 0 <= n < i ==> keys@[n] == -(#[trigger] scores@[n]).rank(),
        decreases scores.len() - i,
    {
        keys.push(-scores[i].order_key());
        i = i + 1;
    }
    let order = stable_order(&keys);
    proof {
        lemma_order_has_no_duplicates(keys@);
        assert forall|n: int| 0 <= n < run@.len() implies keys@[n] == key(#[trigger] run@[n]) by {
            assert(scores@[n] == score(run@[n]));
        }
        lemma_order_sorts(run@, keys@, key);
    }
    rearrange(run, &order)
}

/// Where the numbers at the front end.
pub proof fn lemma_leading_numbers<C>(s: Seq<C>, score: spec_fn(C) -> Score, n: int)
    requires
        0 <= n <= s.len(),
        forall|i: int| 0 <= i < n ==> !score(#[trigger] s[i]).is_nan(),
        n < s.len() ==> score(s[n]).is_nan(),
    ensures
        leading_numbers(s, score) == n,
    decreases s.len(),
{
    if n > 0 {
        let rest = s.drop_first();
        assert(!score(s[0]).is_nan());
        assert forall|i: int| 0 <= i < n - 1 implies !score(#[trigger] rest[i]).is_nan() by {
            assert(!score(s[i + 1]).is_nan());
        }
        lemma_leading_numbers(rest, score, n - 1);
    }
}

/// The candidates by descending score; `scores` holds the score of each.
fn sort_by_score<C>(
    candidates: Vec<C>,
    scores: Vec<Score>,
    Ghost(score): Ghost<spec_fn(C) -> Score>,
) -> (sorted: Vec<C>)
    requires
        candidates@.len() == scores@.len(),
        forall|i: int|
            0 <= i < candidates@.len() ==> #[trigger] scores@[i] == score(candidates@[i]),
    ensures
        sorted@ == sorted_by_score(candidates@, score),
{
    let ghost whole = sorted_by_score(candidates@, score);
    let mut sorted: Vec<C> = Vec::with_capacity(candidates.len());
    let mut rest = candidates;
    let mut rest_scores = scores;
    assert(Seq::<C>::empty() + whole =~= whole);
    while rest.len() > 0
        invariant
            rest@.len() == rest_scores@.len(),
            forall|i: int| 0 <= i < rest@.len() ==> #[trigger] rest_scores@[i] == score(rest@[i]),
            sorted@ + sorted_by_score(rest@, score) == whole,
        decreases rest@.len(),
    {
        let ghost before = sorted@;
        let ghost all = rest@;
        let mut n: usize = 0;
        let mut at_number = true;
        while n < rest_scores.len() && at_number
            invariant
                rest_scores@.len() == all.len(),
                forall|i: int| 0 <= i < all.len() ==> #[trigger] rest_scores@[i] == score(all[i]),
                n <= all.len(),
                forall|i: int| 0 <= i < n ==> !score(#[trigger] all[i]).is_nan(),
                !at_number ==> n < all.len() && score(all[n as int]).is_nan(),
            decreases all.len() - n, (if at_number { 1int } else { 0int }),
        {
            assert(rest_scores@[n as int] == score(all[n as int]));
            if rest_scores[n].nan() {
                at_number = false;
            } else {
                n = n + 1;
            }
        }
        proof {
            lemma_leading_numbers(all, score, n as int);
        }
        let ghost all_scores = rest_scores@;
        let mut tail = rest.split_off(n);
        let mut tail_scores = rest_scores.split_off(n);
        assert(rest@ =~= all.take(n as int));
        assert forall|i: int| 0 <= i < rest@.len() implies #[trigger] rest_scores@[i] == score(
            rest@[i],
        ) by {
            assert(all_scores[i] == score(all[i]));
        }
        let mut run = sort_run(rest, &rest_scores, Ghost(score));
        let ghost run_sorted = run@;
        sorted.append(&mut run);
        if tail.len() > 0 {
            let stays = tail.remove(0);
            let _ = tail_scores.remove(0);
            assert(stays == all[n as int]);
            assert(tail@ =~= all.skip(n + 1));
            assert forall|i: int| 0 <= i < tail@.len() implies #[trigger] tail_scores@[i] == score(
                tail@[i],
            ) by {
                assert(all_scores[n + 1 + i] == score(all[n + 1 + i]));
            }
            sorted.push(stays);
            assert(sorted@ =~= before + run_sorted.push(stays));
            assert(sorted@ + sorted_by_score(tail@, score) =~= before + (run_sorted.push(stays)
                + sorted_by_score(all.skip(n + 1), score)));
        } else {
            assert(sorted_by_score(all, score) == run_sorted);
            assert(sorted_by_score(tail@, score) =~= Seq::empty());
            assert(sorted@ + sorted_by_score(tail@, score) =~= before + run_sorted);
        }
        rest = tail;
        rest_scores = tail_scores;
    }
    assert(sorted@ + sorted_by_score(rest@, score) =~= sorted@);
    sorted
}

} // verus!

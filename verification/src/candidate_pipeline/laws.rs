//! What holds of every run of a pipeline.

use vstd::prelude::*;

use crate::candidate_pipeline::candidate_pipeline::{
    collected, filtered, hydrated, merged_query, scored, CandidatePipeline, HasRequestId,
    PipelineResult,
};
use crate::candidate_pipeline::component::{merged_all, Duplicable};
use crate::candidate_pipeline::filter::FilterResult;
use crate::candidate_pipeline::hydrator::Hydrator;
use crate::candidate_pipeline::query_hydrator::QueryHydrator;
use crate::candidate_pipeline::run::{is_execution, Outcomes};
use crate::candidate_pipeline::scorer::Scorer;
use crate::candidate_pipeline::selector::{
    leading_numbers, lemma_leading_numbers, picked, sorted_by_score,
};
use crate::ordering::{
    lemma_sorted_stays, lemma_stable_sorted, lemma_stable_sorted_contains, stable_sorted,
};
use crate::score::Score;

verus! {

// A component that fails is as good as absent, whatever the others return.

/// `start` after `step` was taken with each of `results`, and the position of the
/// component that returned it.
spec fn taken_in<S, R>(
    start: S,
    positions: Seq<usize>,
    results: Seq<R>,
    step: spec_fn(S, usize, R) -> S,
) -> S
    decreases results.len(),
{
    if results.len() == 0 {
        start
    } else {
        let before = taken_in(start, positions, results.drop_last(), step);
        step(before, positions[results.len() - 1], results.last())
    }
}

proof fn lemma_same_positions<S, R>(
    start: S,
    a: Seq<usize>,
    b: Seq<usize>,
    results: Seq<R>,
    step: spec_fn(S, usize, R) -> S,
)
    requires
        results.len() <= a.len(),
        results.len() <= b.len(),
        forall|n: int| 0 <= n < results.len() ==> #[trigger] a[n] == b[n],
    ensures
        taken_in(start, a, results, step) == taken_in(start, b, results, step),
    decreases results.len(),
{
    if results.len() > 0 {
        assert(a[results.len() - 1] == b[results.len() - 1]);
        lemma_same_positions(start, a, b, results.drop_last(), step);
    }
}

/// A result that no step takes notice of can be left out.
proof fn lemma_without<S, R>(
    start: S,
    positions: Seq<usize>,
    results: Seq<R>,
    step: spec_fn(S, usize, R) -> S,
    i: int,
)
    requires
        positions.len() == results.len(),
        0 <= i < results.len(),
        forall|s: S| #[trigger] step(s, positions[i], results[i]) == s,
    ensures
        taken_in(start, positions, results, step) == taken_in(
            start,
            positions.remove(i),
            results.remove(i),
            step,
        ),
    decreases results.len(),
{
    let n = results.len() - 1;
    let front = results.drop_last();
    if i < n {
        let most = positions.drop_last();
        lemma_without(start, most, front, step, i);
        lemma_same_positions(start, positions, most, front, step);
        lemma_same_positions(start, positions.remove(i), most.remove(i), front.remove(i), step);
        assert(results.remove(i).drop_last() =~= front.remove(i));
        assert(results.remove(i).last() == results.last());
        assert(positions.remove(i)[n - 1] == positions[n]);
    } else {
        lemma_same_positions(start, positions, positions.remove(i), front, step);
        assert(results.remove(i) =~= front);
    }
}

spec fn merging<Q, H: QueryHydrator<Q>>(hydrators: Seq<H>) -> spec_fn(
    Q,
    usize,
    Result<Q, String>,
) -> Q {
    |query: Q, position: usize, result: Result<Q, String>|
        match result {
            Ok(update) => hydrators[position as int].updated(query, update),
            Err(_) => query,
        }
}

proof fn lemma_merging<Q, H: QueryHydrator<Q>>(
    hydrators: Seq<H>,
    positions: Seq<usize>,
    query: Q,
    results: Seq<Result<Q, String>>,
)
    ensures
        merged_query(hydrators, positions, query, results) == taken_in(
            query,
            positions,
            results,
            merging::<Q, H>(hydrators),
        ),
    decreases results.len(),
{
    if results.len() > 0 {
        lemma_merging(hydrators, positions, query, results.drop_last());
    }
}

/// A component that could not fill in the query is as good as absent.
pub proof fn law_failed_query_hydrator_is_absent<Q, H: QueryHydrator<Q>>(
    hydrators: Seq<H>,
    positions: Seq<usize>,
    query: Q,
    results: Seq<Result<Q, String>>,
    i: int,
)
    requires
        positions.len() == results.len(),
        0 <= i < results.len(),
        results[i] is Err,
    ensures
        merged_query(hydrators, positions, query, results) == merged_query(
            hydrators,
            positions.remove(i),
            query,
            results.remove(i),
        ),
{
    let step = merging::<Q, H>(hydrators);
    lemma_merging(hydrators, positions, query, results);
    lemma_merging(hydrators, positions.remove(i), query, results.remove(i));
    lemma_without(query, positions, results, step, i);
}

/// A source that failed is as good as absent: the candidates of the others are
/// all there, in order.
pub proof fn law_failed_source_is_absent<C>(results: Seq<Result<Vec<C>, String>>, i: int)
    requires
        0 <= i < results.len(),
        results[i] is Err,
    ensures
        collected(results) == collected(results.remove(i)),
    decreases results.len(),
{
    let front = results.drop_last();
    if i < front.len() {
        law_failed_source_is_absent(front, i);
        assert(results.remove(i).drop_last() =~= front.remove(i));
        assert(results.remove(i).last() == results.last());
    } else {
        assert(results.remove(i) =~= front);
    }
}

spec fn hydrating<Q, C, H: Hydrator<Q, C>>(hydrators: Seq<H>, expected: nat) -> spec_fn(
    Seq<C>,
    usize,
    Result<Vec<C>, String>,
) -> Seq<C> {
    |candidates: Seq<C>, position: usize, result: Result<Vec<C>, String>|
        match result {
            Ok(updates) => if updates@.len() == expected {
                let component = hydrators[position as int];
                merged_all(candidates, updates@, |c: C, u: C| component.updated(c, u))
            } else {
                candidates
            },
            Err(_) => candidates,
        }
}

proof fn lemma_hydrating<Q, C, H: Hydrator<Q, C>>(
    hydrators: Seq<H>,
    positions: Seq<usize>,
    candidates: Seq<C>,
    results: Seq<Result<Vec<C>, String>>,
)
    ensures
        hydrated(hydrators, positions, candidates, results) == taken_in(
            candidates,
            positions,
            results,
            hydrating::<Q, C, H>(hydrators, candidates.len()),
        ),
    decreases results.len(),
{
    if results.len() > 0 {
        lemma_hydrating(hydrators, positions, candidates, results.drop_last());
    }
}

/// A component that could not fill in the candidates, or that returned too few or
/// too many, is as good as absent.
pub proof fn law_failed_hydrator_is_absent<Q, C, H: Hydrator<Q, C>>(
    hydrators: Seq<H>,
    positions: Seq<usize>,
    candidates: Seq<C>,
    results: Seq<Result<Vec<C>, String>>,
    i: int,
)
    requires
        positions.len() == results.len(),
        0 <= i < results.len(),
        results[i] matches Ok(updates) ==> updates@.len() != candidates.len(),
    ensures
        hydrated(hydrators, positions, candidates, results) == hydrated(
            hydrators,
            positions.remove(i),
            candidates,
            results.remove(i),
        ),
{
    let step = hydrating::<Q, C, H>(hydrators, candidates.len());
    lemma_hydrating(hydrators, positions, candidates, results);
    lemma_hydrating(hydrators, positions.remove(i), candidates, results.remove(i));
    lemma_without(candidates, positions, results, step, i);
}

spec fn scoring<Q, C, S: Scorer<Q, C>>(scorers: Seq<S>, expected: nat) -> spec_fn(
    Seq<C>,
    usize,
    Result<Vec<C>, String>,
) -> Seq<C> {
    |candidates: Seq<C>, position: usize, result: Result<Vec<C>, String>|
        match result {
            Ok(updates) => if updates@.len() == expected {
                let component = scorers[position as int];
                merged_all(candidates, updates@, |c: C, u: C| component.updated(c, u))
            } else {
                candidates
            },
            Err(_) => candidates,
        }
}

proof fn lemma_scoring<Q, C, S: Scorer<Q, C>>(
    scorers: Seq<S>,
    positions: Seq<usize>,
    candidates: Seq<C>,
    results: Seq<Result<Vec<C>, String>>,
)
    ensures
        scored(scorers, positions, candidates, results) == taken_in(
            candidates,
            positions,
            results,
            scoring::<Q, C, S>(scorers, candidates.len()),
        ),
    decreases results.len(),
{
    if results.len() > 0 {
        lemma_scoring(scorers, positions, candidates, results.drop_last());
    }
}

/// A scorer that failed, or that returned too few or too many, is as good as
/// absent.
pub proof fn law_failed_scorer_is_absent<Q, C, S: Scorer<Q, C>>(
    scorers: Seq<S>,
    positions: Seq<usize>,
    candidates: Seq<C>,
    results: Seq<Result<Vec<C>, String>>,
    i: int,
)
    requires
        positions.len() == results.len(),
        0 <= i < results.len(),
        results[i] matches Ok(updates) ==> updates@.len() != candidates.len(),
    ensures
        scored(scorers, positions, candidates, results) == scored(
            scorers,
            positions.remove(i),
            candidates,
            results.remove(i),
        ),
{
    let step = scoring::<Q, C, S>(scorers, candidates.len());
    lemma_scoring(scorers, positions, candidates, results);
    lemma_scoring(scorers, positions.remove(i), candidates, results.remove(i));
    lemma_without(candidates, positions, results, step, i);
}

/// A filter that failed is as good as absent: it removes nothing, and the others
/// work on.
pub proof fn law_failed_filter_is_absent<C>(
    candidates: Seq<C>,
    results: Seq<Result<FilterResult<C>, String>>,
    i: int,
)
    requires
        0 <= i < results.len(),
        results[i] is Err,
    ensures
        filtered(candidates, results) == filtered(candidates, results.remove(i)),
    decreases results.len(),
{
    let front = results.drop_last();
    if i < front.len() {
        law_failed_filter_is_absent(candidates, front, i);
        assert(results.remove(i).drop_last() =~= front.remove(i));
        assert(results.remove(i).last() == results.last());
    } else {
        assert(results.remove(i) =~= front);
    }
}

// No component but a filter loses candidates.

/// Filling candidates in keeps their number.
pub proof fn law_hydrators_keep_the_number<Q, C, H: Hydrator<Q, C>>(
    hydrators: Seq<H>,
    positions: Seq<usize>,
    candidates: Seq<C>,
    results: Seq<Result<Vec<C>, String>>,
)
    ensures
        hydrated(hydrators, positions, candidates, results).len() == candidates.len(),
    decreases results.len(),
{
    if results.len() > 0 {
        law_hydrators_keep_the_number(hydrators, positions, candidates, results.drop_last());
    }
}

/// Scoring candidates keeps their number.
pub proof fn law_scorers_keep_the_number<Q, C, S: Scorer<Q, C>>(
    scorers: Seq<S>,
    positions: Seq<usize>,
    candidates: Seq<C>,
    results: Seq<Result<Vec<C>, String>>,
)
    ensures
        scored(scorers, positions, candidates, results).len() == candidates.len(),
    decreases results.len(),
{
    if results.len() > 0 {
        law_scorers_keep_the_number(scorers, positions, candidates, results.drop_last());
    }
}

/// Each filter that succeeded parted what the filters before it had left.
pub open spec fn are_partitions<C>(
    candidates: Seq<C>,
    results: Seq<Result<FilterResult<C>, String>>,
) -> bool {
    forall|i: int|
        0 <= i < results.len() ==> ((#[trigger] results[i]) matches Ok(parts)
            ==> parts.is_partition_of(filtered(candidates, results.take(i)).0))
}

/// Where every filter parts what it is given, the candidates that are left and
/// those that were removed are together the candidates that came.
pub proof fn law_filters_lose_no_candidate<C>(
    candidates: Seq<C>,
    results: Seq<Result<FilterResult<C>, String>>,
)
    requires
        are_partitions(candidates, results),
    ensures
        filtered(candidates, results).0.to_multiset().add(
            filtered(candidates, results).1.to_multiset(),
        ) =~= candidates.to_multiset(),
    decreases results.len(),
{
    broadcast use vstd::seq_lib::group_to_multiset_ensures;

    if results.len() > 0 {
        let front = results.drop_last();
        assert(results.take(results.len() - 1) =~= front);
        assert(are_partitions(candidates, front)) by {
            assert forall|i: int| 0 <= i < front.len() implies ((#[trigger] front[i]) matches Ok(
                parts,
            ) ==> parts.is_partition_of(filtered(candidates, front.take(i)).0)) by {
                assert(results[i] == front[i]);
                assert(results.take(i) =~= front.take(i));
            }
        }
        law_filters_lose_no_candidate(candidates, front);
        let before = filtered(candidates, front);
        if let Ok(parts) = results.last() {
            assert(results[results.len() - 1] == results.last());
            assert(parts.is_partition_of(before.0));
            vstd::seq_lib::lemma_multiset_commutative(before.1, parts.removed@);
            let kept = parts.kept@.to_multiset();
            let removed = parts.removed@.to_multiset();
            assert(kept.add((before.1 + parts.removed@).to_multiset()) =~= (kept.add(removed)).add(
                before.1.to_multiset(),
            ));
        }
    } else {
        assert(candidates.to_multiset().add(Seq::<C>::empty().to_multiset())
            =~= candidates.to_multiset());
    }
}

// Selection.

/// Sorting by score keeps the candidates.
pub proof fn law_sorting_by_score_keeps_the_candidates<C>(s: Seq<C>, score: spec_fn(C) -> Score)
    ensures
        sorted_by_score(s, score).len() == s.len(),
        sorted_by_score(s, score).to_multiset() =~= s.to_multiset(),
    decreases s.len(),
{
    broadcast use vstd::seq_lib::group_to_multiset_ensures;

    let n = leading_numbers(s, score) as int;
    lemma_leading_bound(s, score);
    let key = |c: C| -score(c).rank();
    lemma_stable_sorted(s.take(n), key);
    let run = stable_sorted(s.take(n), key);
    if s.len() == 0 {
    } else if n >= s.len() {
        assert(s.take(n) =~= s);
    } else {
        let rest = s.skip(n + 1);
        law_sorting_by_score_keeps_the_candidates(rest, score);
        assert(s =~= s.take(n).push(s[n]) + rest);
        vstd::seq_lib::lemma_multiset_commutative(s.take(n).push(s[n]), rest);
        vstd::seq_lib::lemma_multiset_commutative(
            run.push(s[n]),
            sorted_by_score(rest, score),
        );
    }
}

proof fn lemma_leading_bound<C>(s: Seq<C>, score: spec_fn(C) -> Score)
    ensures
        leading_numbers(s, score) <= s.len(),
        leading_numbers(s, score) < s.len() ==> score(
            s[leading_numbers(s, score) as int],
        ).is_nan(),
    decreases s.len(),
{
    if s.len() > 0 && !score(s[0]).is_nan() {
        lemma_leading_bound(s.drop_first(), score);
    }
}

/// Where every score is a number, the best candidates come first, and candidates
/// of equal score keep their order.
pub proof fn law_best_candidates_come_first<C>(
    s: Seq<C>,
    score: spec_fn(C) -> Score,
    i: int,
    j: int,
)
    requires
        forall|n: int| 0 <= n < s.len() ==> !score(#[trigger] s[n]).is_nan(),
        0 <= i <= j < s.len(),
    ensures
        sorted_by_score(s, score) == stable_sorted(s, |c: C| -score(c).rank()),
        score(sorted_by_score(s, score)[j]).rank() <= score(sorted_by_score(s, score)[i]).rank(),
{
    let key = |c: C| -score(c).rank();
    lemma_leading_numbers(s, score, s.len() as int);
    assert(s.take(s.len() as int) =~= s);
    lemma_stable_sorted(s, key);
    let sorted = stable_sorted(s, key);
    assert(key(sorted[i]) <= key(sorted[j]));
}

/// A candidate whose score is not a number stays where it is.
pub proof fn law_unordered_candidates_stay_in_place<C>(
    s: Seq<C>,
    score: spec_fn(C) -> Score,
    i: int,
)
    requires
        0 <= i < s.len(),
        score(s[i]).is_nan(),
    ensures
        sorted_by_score(s, score).len() == s.len(),
        sorted_by_score(s, score)[i] == s[i],
    decreases s.len(),
{
    let n = leading_numbers(s, score) as int;
    lemma_leading_bound(s, score);
    lemma_leading_are_numbers(s, score);
    law_sorting_by_score_keeps_the_candidates(s, score);
    let key = |c: C| -score(c).rank();
    lemma_stable_sorted(s.take(n), key);
    if i > n {
        let rest = s.skip(n + 1);
        law_unordered_candidates_stay_in_place(rest, score, i - n - 1);
    }
}

proof fn lemma_leading_are_numbers<C>(s: Seq<C>, score: spec_fn(C) -> Score)
    ensures
        forall|i: int|
            0 <= i < leading_numbers(s, score) && i < s.len() ==> !score(#[trigger] s[i]).is_nan(),
    decreases s.len(),
{
    if s.len() > 0 && !score(s[0]).is_nan() {
        let rest = s.drop_first();
        lemma_leading_are_numbers(rest, score);
        assert forall|i: int| 0 <= i < leading_numbers(s, score) && i < s.len() implies !score(
            #[trigger] s[i],
        ).is_nan() by {
            if i > 0 {
                assert(!score(rest[i - 1]).is_nan());
            }
        }
    }
}

/// Sorting by score once more changes nothing.
pub proof fn law_sorting_by_score_is_settled_by_one_run<C>(s: Seq<C>, score: spec_fn(C) -> Score)
    ensures
        sorted_by_score(sorted_by_score(s, score), score) == sorted_by_score(s, score),
    decreases s.len(),
{
    let key = |c: C| -score(c).rank();
    let n = leading_numbers(s, score) as int;
    let run = stable_sorted(s.take(n), key);
    let sorted = sorted_by_score(s, score);
    lemma_leading_bound(s, score);
    lemma_leading_are_numbers(s, score);
    lemma_stable_sorted(s.take(n), key);
    lemma_sorted_stays(run, key);
    assert forall|i: int| 0 <= i < n implies !score(#[trigger] run[i]).is_nan() by {
        lemma_stable_sorted_contains(s.take(n), key, run[i]);
        assert(s.take(n).contains(run[i]));
        let j = choose|j: int| 0 <= j < n && s.take(n)[j] == run[i];
        assert(!score(s[j]).is_nan());
    }
    if s.len() > 0 {
        if n < s.len() {
            let rest = s.skip(n + 1);
            law_sorting_by_score_is_settled_by_one_run(rest, score);
            assert(sorted.skip(n + 1) =~= sorted_by_score(rest, score));
            assert(sorted[n] == s[n]);
        }
        assert forall|i: int| 0 <= i < n implies !score(#[trigger] sorted[i]).is_nan() by {
            assert(sorted[i] == run[i]);
        }
        lemma_leading_numbers(sorted, score, n);
        assert(sorted.take(n) =~= run);
    }
}

/// No more candidates are picked than the limit allows.
pub proof fn law_selection_is_bounded<C>(s: Seq<C>, score: spec_fn(C) -> Score, limit: usize)
    ensures
        picked(s, score, Some(limit)).len() <= limit,
        picked(s, score, Some(limit)).is_prefix_of(sorted_by_score(s, score)),
{
}

/// No answer has more candidates than the pipeline hands out.
pub proof fn law_results_are_bounded<
    Q: HasRequestId + Duplicable,
    C: Duplicable,
    P: CandidatePipeline<Q, C>,
>(result: PipelineResult<Q, C>, pipeline: P, query: Q, outcomes: Outcomes<Q, C>)
    requires
        is_execution(result, pipeline, query, outcomes),
    ensures
        result.selected_candidates@.len() <= pipeline.max_results(),
{
}

} // verus!

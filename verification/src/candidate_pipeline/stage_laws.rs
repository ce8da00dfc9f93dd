//! What each stage of a pipeline makes of what its components returned, and what
//! comes out at the end.

use vstd::prelude::*;

use crate::candidate_pipeline::candidate_pipeline::{
    collected, filtered, hydrated, merged_query, scored, selected, CandidatePipeline, HasRequestId,
    PipelineResult, PipelineStage,
};
use crate::candidate_pipeline::component::{are_copies, enabled_positions, Component, Duplicable};
use crate::candidate_pipeline::filter::FilterResult;
use crate::candidate_pipeline::hydrator::Hydrator;
use crate::candidate_pipeline::laws::{
    law_best_candidates_come_first, law_sorting_by_score_keeps_the_candidates,
};
use crate::candidate_pipeline::query_hydrator::QueryHydrator;
use crate::candidate_pipeline::run::{
    awaited_at, candidates_at, is_complete, is_execution, is_recorded, no_outcomes, post_filtered_after,
    post_hydrated_after, query_after, stage_after, Outcomes, PipelineAction, PipelineRun, StageOutcome,
};
use crate::candidate_pipeline::scorer::Scorer;
use crate::candidate_pipeline::selector::{
    leading_numbers, lemma_leading_numbers, picked, sorted_by_score, Selector,
};
use crate::ordering::{
    lemma_stable_sorted, lemma_with_key_is_filter, stable_sorted, with_key,
};
use crate::score::Score;

verus! {

// Which components work.

/// Exactly the components that take part in the query are to work, in the order of
/// their list.
pub proof fn law_components_that_take_part_work<Q, T: Component<Q>>(
    components: Seq<T>,
    query: Q,
)
    requires
        components.len() <= usize::MAX,
    ensures
        forall|place: usize|
            place < components.len() ==> (#[trigger] enabled_positions(components, query).contains(
                place,
            ) <==> components[place as int].is_enabled(query)),
        forall|i: int|
            0 <= i < enabled_positions(components, query).len() ==> #[trigger] enabled_positions(
                components,
                query,
            )[i] < components.len(),
        forall|i: int, j: int|
            0 <= i < j < enabled_positions(components, query).len()
                ==> #[trigger] enabled_positions(components, query)[i]
                < #[trigger] enabled_positions(components, query)[j],
    decreases components.len(),
{
    if components.len() > 0 {
        let front = components.drop_last();
        law_components_that_take_part_work(front, query);
        let before = enabled_positions(front, query);
        let all = enabled_positions(components, query);
        let last = (components.len() - 1) as usize;
        assert forall|place: usize| place < components.len() implies (#[trigger] all.contains(place)
            <==> components[place as int].is_enabled(query)) by {
            if place < last {
                assert(front[place as int] == components[place as int]);
                assert(before.contains(place) <==> front[place as int].is_enabled(query));
                if all.contains(place) {
                    let i = all.index_of(place);
                    assert(i < before.len());
                    assert(before[i] == place);
                }
                if before.contains(place) {
                    let i = before.index_of(place);
                    assert(all[i] == place);
                }
            } else {
                if all.contains(last) {
                    let i = all.index_of(last);
                    if i < before.len() {
                        assert(before[i] < front.len());
                    }
                }
                if components.last().is_enabled(query) {
                    assert(all[before.len() as int] == last);
                }
            }
        }
        assert forall|i: int, j: int| 0 <= i < j < all.len() implies #[trigger] all[i]
            < #[trigger] all[j] by {
            if j == before.len() {
                assert(before[i] < front.len());
            } else {
                assert(before[i] < before[j]);
            }
        }
    }
}

// What the components returned goes to the one that returned it.

/// What a component returned is taken in by that component, on top of what those
/// before it did; where there is nothing to take in the candidates stay as they are.
pub proof fn law_hydrators_take_in_what_they_returned<Q, C, H: Hydrator<Q, C>>(
    hydrators: Seq<H>,
    positions: Seq<usize>,
    candidates: Seq<C>,
    earlier: Seq<Result<Vec<C>, String>>,
    updates: Vec<C>,
    i: int,
)
    requires
        updates@.len() == candidates.len(),
        0 <= i < candidates.len(),
    ensures
        hydrated(hydrators, positions, candidates, Seq::empty()) == candidates,
        hydrated(hydrators, positions, candidates, earlier).len() == candidates.len(),
        hydrated(hydrators, positions, candidates, earlier.push(Ok(updates)))[i]
            == hydrators[positions[earlier.len() as int] as int].updated(
            hydrated(hydrators, positions, candidates, earlier)[i],
            updates@[i],
        ),
{
    lemma_hydrated_len(hydrators, positions, candidates, earlier);
    assert(earlier.push(Ok(updates)).drop_last() =~= earlier);
}

proof fn lemma_hydrated_len<Q, C, H: Hydrator<Q, C>>(
    hydrators: Seq<H>,
    positions: Seq<usize>,
    candidates: Seq<C>,
    results: Seq<Result<Vec<C>, String>>,
)
    ensures
        hydrated(hydrators, positions, candidates, results).len() == candidates.len(),
    decreases results.len(),
{
    if results.len() > 0 {
        lemma_hydrated_len(hydrators, positions, candidates, results.drop_last());
    }
}

proof fn lemma_nothing_hydrated<Q, C, H: Hydrator<Q, C>>(
    hydrators: Seq<H>,
    positions: Seq<usize>,
    candidates: Seq<C>,
    results: Seq<Result<Vec<C>, String>>,
)
    requires
        forall|n: int|
            0 <= n < results.len() ==> ((#[trigger] results[n]) matches Ok(others)
                ==> others@.len() != candidates.len()),
    ensures
        hydrated(hydrators, positions, candidates, results) == candidates,
    decreases results.len(),
{
    if results.len() > 0 {
        let front = results.drop_last();
        assert forall|n: int| 0 <= n < front.len() implies ((#[trigger] front[n]) matches Ok(others)
            ==> others@.len() != candidates.len()) by {
            assert(front[n] == results[n]);
        }
        lemma_nothing_hydrated(hydrators, positions, candidates, front);
        assert(results[results.len() - 1] == results.last());
    }
}

/// Where one component alone returned a candidate for each, every candidate is
/// what that component makes of it.
pub proof fn law_a_single_hydrator_is_taken_in<Q, C, H: Hydrator<Q, C>>(
    hydrators: Seq<H>,
    positions: Seq<usize>,
    candidates: Seq<C>,
    results: Seq<Result<Vec<C>, String>>,
    k: int,
    updates: Vec<C>,
    i: int,
)
    requires
        0 <= k < results.len(),
        results[k] == Ok::<Vec<C>, String>(updates),
        updates@.len() == candidates.len(),
        forall|n: int|
            0 <= n < results.len() && n != k ==> ((#[trigger] results[n]) matches Ok(others)
                ==> others@.len() != candidates.len()),
        0 <= i < candidates.len(),
    ensures
        hydrated(hydrators, positions, candidates, results)[i]
            == hydrators[positions[k] as int].updated(candidates[i], updates@[i]),
        hydrated(hydrators, positions, candidates, results).len() == candidates.len(),
    decreases results.len(),
{
    let front = results.drop_last();
    lemma_hydrated_len(hydrators, positions, candidates, results);
    assert(results[results.len() - 1] == results.last());
    assert forall|n: int| 0 <= n < front.len() && n != k implies ((#[trigger] front[n]) matches Ok(
        others,
    ) ==> others@.len() != candidates.len()) by {
        assert(front[n] == results[n]);
    }
    if k == results.len() - 1 {
        lemma_nothing_hydrated(hydrators, positions, candidates, front);
    } else {
        assert(front[k] == results[k]);
        law_a_single_hydrator_is_taken_in(
            hydrators,
            positions,
            candidates,
            front,
            k,
            updates,
            i,
        );
    }
}

/// Where no component returned a candidate for each, the candidates stay as they
/// are.
pub proof fn law_candidates_stay_without_hydration<Q, C, H: Hydrator<Q, C>>(
    hydrators: Seq<H>,
    positions: Seq<usize>,
    candidates: Seq<C>,
    results: Seq<Result<Vec<C>, String>>,
)
    requires
        forall|n: int|
            0 <= n < results.len() ==> ((#[trigger] results[n]) matches Ok(others)
                ==> others@.len() != candidates.len()),
    ensures
        hydrated(hydrators, positions, candidates, results) == candidates,
{
    lemma_nothing_hydrated(hydrators, positions, candidates, results);
}

/// What a scorer returned is taken in by that scorer, on top of what those before
/// it did; where there is nothing to take in the candidates stay as they are.
pub proof fn law_scorers_take_in_what_they_returned<Q, C, S: Scorer<Q, C>>(
    scorers: Seq<S>,
    positions: Seq<usize>,
    candidates: Seq<C>,
    earlier: Seq<Result<Vec<C>, String>>,
    updates: Vec<C>,
    i: int,
)
    requires
        updates@.len() == candidates.len(),
        0 <= i < candidates.len(),
    ensures
        scored(scorers, positions, candidates, Seq::empty()) == candidates,
        scored(scorers, positions, candidates, earlier).len() == candidates.len(),
        scored(scorers, positions, candidates, earlier.push(Ok(updates)))[i]
            == scorers[positions[earlier.len() as int] as int].updated(
            scored(scorers, positions, candidates, earlier)[i],
            updates@[i],
        ),
{
    lemma_scored_len(scorers, positions, candidates, earlier);
    assert(earlier.push(Ok(updates)).drop_last() =~= earlier);
}

proof fn lemma_scored_len<Q, C, S: Scorer<Q, C>>(
    scorers: Seq<S>,
    positions: Seq<usize>,
    candidates: Seq<C>,
    results: Seq<Result<Vec<C>, String>>,
)
    ensures
        scored(scorers, positions, candidates, results).len() == candidates.len(),
    decreases results.len(),
{
    if results.len() > 0 {
        lemma_scored_len(scorers, positions, candidates, results.drop_last());
    }
}

proof fn lemma_nothing_scored<Q, C, S: Scorer<Q, C>>(
    scorers: Seq<S>,
    positions: Seq<usize>,
    candidates: Seq<C>,
    results: Seq<Result<Vec<C>, String>>,
)
    requires
        forall|n: int|
            0 <= n < results.len() ==> ((#[trigger] results[n]) matches Ok(others)
                ==> others@.len() != candidates.len()),
    ensures
        scored(scorers, positions, candidates, results) == candidates,
    decreases results.len(),
{
    if results.len() > 0 {
        let front = results.drop_last();
        assert forall|n: int| 0 <= n < front.len() implies ((#[trigger] front[n]) matches Ok(others)
            ==> others@.len() != candidates.len()) by {
            assert(front[n] == results[n]);
        }
        lemma_nothing_scored(scorers, positions, candidates, front);
        assert(results[results.len() - 1] == results.last());
    }
}

/// Where one scorer alone returned a candidate for each, every candidate is what
/// that scorer makes of it.
pub proof fn law_a_single_scorer_is_taken_in<Q, C, S: Scorer<Q, C>>(
    scorers: Seq<S>,
    positions: Seq<usize>,
    candidates: Seq<C>,
    results: Seq<Result<Vec<C>, String>>,
    k: int,
    updates: Vec<C>,
    i: int,
)
    requires
        0 <= k < results.len(),
        results[k] == Ok::<Vec<C>, String>(updates),
        updates@.len() == candidates.len(),
        forall|n: int|
            0 <= n < results.len() && n != k ==> ((#[trigger] results[n]) matches Ok(others)
                ==> others@.len() != candidates.len()),
        0 <= i < candidates.len(),
    ensures
        scored(scorers, positions, candidates, results)[i]
            == scorers[positions[k] as int].updated(candidates[i], updates@[i]),
        scored(scorers, positions, candidates, results).len() == candidates.len(),
    decreases results.len(),
{
    let front = results.drop_last();
    lemma_scored_len(scorers, positions, candidates, results);
    assert(results[results.len() - 1] == results.last());
    assert forall|n: int| 0 <= n < front.len() && n != k implies ((#[trigger] front[n]) matches Ok(
        others,
    ) ==> others@.len() != candidates.len()) by {
        assert(front[n] == results[n]);
    }
    if k == results.len() - 1 {
        lemma_nothing_scored(scorers, positions, candidates, front);
    } else {
        assert(front[k] == results[k]);
        law_a_single_scorer_is_taken_in(scorers, positions, candidates, front, k, updates, i);
    }
}

/// What a component returned of the query is taken in by that component, on top of
/// what those before it did; where there is nothing to take in the query stays as it
/// is.
pub proof fn law_query_hydrators_take_in_what_they_returned<Q, H: QueryHydrator<Q>>(
    hydrators: Seq<H>,
    positions: Seq<usize>,
    query: Q,
    earlier: Seq<Result<Q, String>>,
    update: Q,
)
    ensures
        merged_query(hydrators, positions, query, Seq::empty()) == query,
        merged_query(hydrators, positions, query, earlier.push(Ok(update)))
            == hydrators[positions[earlier.len() as int] as int].updated(
            merged_query(hydrators, positions, query, earlier),
            update,
        ),
{
    assert(earlier.push(Ok(update)).drop_last() =~= earlier);
}

/// Where one component alone returned the query, it is what that component makes of
/// it.
pub proof fn law_a_single_query_hydrator_is_taken_in<Q, H: QueryHydrator<Q>>(
    hydrators: Seq<H>,
    positions: Seq<usize>,
    query: Q,
    results: Seq<Result<Q, String>>,
    k: int,
    update: Q,
)
    requires
        0 <= k < results.len(),
        results[k] == Ok::<Q, String>(update),
        forall|n: int| 0 <= n < results.len() && n != k ==> (#[trigger] results[n]) is Err,
    ensures
        merged_query(hydrators, positions, query, results)
            == hydrators[positions[k] as int].updated(query, update),
    decreases results.len(),
{
    let front = results.drop_last();
    assert(results[results.len() - 1] == results.last());
    assert forall|n: int| 0 <= n < front.len() && n != k implies (#[trigger] front[n]) is Err by {
        assert(front[n] == results[n]);
    }
    if k == results.len() - 1 {
        lemma_nothing_merged(hydrators, positions, query, front);
    } else {
        assert(front[k] == results[k]);
        law_a_single_query_hydrator_is_taken_in(hydrators, positions, query, front, k, update);
    }
}

proof fn lemma_nothing_merged<Q, H: QueryHydrator<Q>>(
    hydrators: Seq<H>,
    positions: Seq<usize>,
    query: Q,
    results: Seq<Result<Q, String>>,
)
    requires
        forall|n: int| 0 <= n < results.len() ==> (#[trigger] results[n]) is Err,
    ensures
        merged_query(hydrators, positions, query, results) == query,
    decreases results.len(),
{
    if results.len() > 0 {
        let front = results.drop_last();
        assert forall|n: int| 0 <= n < front.len() implies (#[trigger] front[n]) is Err by {
            assert(front[n] == results[n]);
        }
        lemma_nothing_merged(hydrators, positions, query, front);
        assert(results[results.len() - 1] == results.last());
    }
}

/// The candidates of several sources stand one list after the other, each list
/// whole and in its order; a source that failed brings none.
pub proof fn law_sources_bring_all_they_have<C>(
    earlier: Seq<Result<Vec<C>, String>>,
    later: Seq<Result<Vec<C>, String>>,
    candidates: Vec<C>,
    reason: String,
)
    ensures
        collected(earlier + later) == collected(earlier) + collected(later),
        collected(seq![Ok::<Vec<C>, String>(candidates)]) == candidates@,
        collected(seq![Err::<Vec<C>, String>(reason)]) == Seq::<C>::empty(),
        collected(Seq::<Result<Vec<C>, String>>::empty()) == Seq::<C>::empty(),
{
    lemma_collected_joined(earlier, later);
    let one = seq![Ok::<Vec<C>, String>(candidates)];
    assert(one.drop_last() =~= Seq::empty());
    reveal_with_fuel(collected, 2);
    assert(collected(one) =~= candidates@);
    let none = seq![Err::<Vec<C>, String>(reason)];
    assert(none.drop_last() =~= Seq::empty());
    assert(collected(none) =~= Seq::<C>::empty());
}

proof fn lemma_collected_joined<C>(
    earlier: Seq<Result<Vec<C>, String>>,
    later: Seq<Result<Vec<C>, String>>,
)
    ensures
        collected(earlier + later) == collected(earlier) + collected(later),
    decreases later.len(),
{
    if later.len() == 0 {
        assert(earlier + later =~= earlier);
        assert(collected(earlier) + collected(later) =~= collected(earlier));
    } else {
        lemma_collected_joined(earlier, later.drop_last());
        assert((earlier + later).drop_last() =~= earlier + later.drop_last());
        assert((earlier + later).last() == later.last());
        assert(collected(earlier + later) =~= collected(earlier) + collected(later));
    }
}

/// What the last filter that succeeded kept is left, and what it removed is put
/// behind what those before it removed; one that failed changes nothing.
pub proof fn law_filters_pass_on_what_they_keep<C>(
    candidates: Seq<C>,
    earlier: Seq<Result<FilterResult<C>, String>>,
    parts: FilterResult<C>,
    reason: String,
)
    ensures
        filtered(candidates, Seq::<Result<FilterResult<C>, String>>::empty()) == (
            candidates,
            Seq::<C>::empty(),
        ),
        filtered(candidates, earlier.push(Ok(parts))).0 == parts.kept@,
        filtered(candidates, earlier.push(Ok(parts))).1 == filtered(candidates, earlier).1
            + parts.removed@,
        filtered(candidates, earlier.push(Err(reason))) == filtered(candidates, earlier),
{
    assert(earlier.push(Ok(parts)).drop_last() =~= earlier);
    assert(earlier.push(Err(reason)).drop_last() =~= earlier);
}

/// A candidate is reported as removed exactly if some filter that succeeded removed
/// it.
pub proof fn law_removed_candidates_were_removed_by_a_filter<C>(
    candidates: Seq<C>,
    results: Seq<Result<FilterResult<C>, String>>,
    candidate: C,
)
    ensures
        filtered(candidates, results).1.contains(candidate) <==> exists|n: int|
            0 <= n < results.len() && (#[trigger] results[n] matches Ok(parts)
                && parts.removed@.contains(candidate)),
    decreases results.len(),
{
    let removed = filtered(candidates, results).1;
    if results.len() > 0 {
        let front = results.drop_last();
        let before = filtered(candidates, front).1;
        law_removed_candidates_were_removed_by_a_filter(candidates, front, candidate);
        let last = results.len() - 1;
        assert(results[last] == results.last());
        if removed.contains(candidate) {
            let place = removed.index_of(candidate);
            if results.last() is Ok && place >= before.len() {
                let parts = results.last()->Ok_0;
                assert(parts.removed@[place - before.len()] == candidate);
                assert(results[last] is Ok && results[last]->Ok_0.removed@.contains(candidate));
            } else {
                assert(before[place] == candidate);
                assert(before.contains(candidate));
                let n = choose|n: int|
                    0 <= n < front.len() && (#[trigger] front[n] matches Ok(parts)
                        && parts.removed@.contains(candidate));
                assert(results[n] == front[n]);
            }
        }
        if exists|n: int|
            0 <= n < results.len() && (#[trigger] results[n] matches Ok(parts)
                && parts.removed@.contains(candidate)) {
            let n = choose|n: int|
                0 <= n < results.len() && (#[trigger] results[n] matches Ok(parts)
                    && parts.removed@.contains(candidate));
            if n < last {
                assert(front[n] == results[n]);
                let place = before.index_of(candidate);
                assert(removed[place] == candidate);
            } else {
                let parts = results.last()->Ok_0;
                let place = parts.removed@.index_of(candidate);
                assert(removed[before.len() + place] == candidate);
            }
        }
    }
}

// The selection.

/// A selector that takes no part passes every candidate; one that does picks by its
/// own score and limit.
pub proof fn law_selectors_pick_or_pass<Q, C, S: Selector<Q, C>>(
    selector: S,
    query: Q,
    candidates: Seq<C>,
)
    ensures
        !selector.is_enabled(query) ==> selected(selector, query, candidates) == candidates,
        selector.is_enabled(query) ==> selected(selector, query, candidates) == picked(
            candidates,
            |c: C| selector.score_of(c),
            selector.limit(),
        ),
{
}

/// As many candidates are picked as the limit allows and there are, all of them
/// without a limit, and where every score is a number none that is left out is better
/// than one that is picked.
pub proof fn law_the_best_are_picked<C>(
    candidates: Seq<C>,
    score: spec_fn(C) -> Score,
    limit: Option<usize>,
)
    ensures
        ({
            let chosen = picked(candidates, score, limit);
            &&& limit is None ==> chosen.len() == candidates.len()
            &&& limit matches Some(most) ==> chosen.len() == if most < candidates.len() {
                most as int
            } else {
                candidates.len() as int
            }
            &&& (forall|n: int| 0 <= n < candidates.len() ==> !score(#[trigger] candidates[n]).is_nan())
                ==> {
                &&& forall|i: int, j: int|
                    0 <= i <= j < chosen.len() ==> score(#[trigger] chosen[j]).rank() <= score(
                        #[trigger] chosen[i],
                    ).rank()
                &&& forall|i: int, c: C|
                    0 <= i < chosen.len() && #[trigger] candidates.contains(c) && !chosen.contains(
                        c,
                    ) ==> score(c).rank() <= score(#[trigger] chosen[i]).rank()
                &&& forall|i: int|
                    0 <= i < chosen.len() ==> candidates.contains(#[trigger] chosen[i])
            }
        }),
{
    broadcast use vstd::seq_lib::group_to_multiset_ensures;

    let sorted = sorted_by_score(candidates, score);
    let chosen = picked(candidates, score, limit);
    law_sorting_by_score_keeps_the_candidates(candidates, score);
    assert(sorted.to_multiset().len() == candidates.to_multiset().len());
    if forall|n: int| 0 <= n < candidates.len() ==> !score(#[trigger] candidates[n]).is_nan() {
        assert forall|i: int, j: int| 0 <= i <= j < chosen.len() implies score(
            #[trigger] chosen[j],
        ).rank() <= score(#[trigger] chosen[i]).rank() by {
            law_best_candidates_come_first(candidates, score, i, j);
        }
        assert forall|i: int, c: C|
            0 <= i < chosen.len() && #[trigger] candidates.contains(c) && !chosen.contains(
                c,
            ) implies score(c).rank() <= score(#[trigger] chosen[i]).rank() by {
            assert(candidates.to_multiset().count(c) > 0);
            assert(sorted.contains(c));
            let j = sorted.index_of(c);
            if j < chosen.len() {
                assert(chosen[j] == c);
            }
            law_best_candidates_come_first(candidates, score, i, j);
        }
        assert forall|i: int| 0 <= i < chosen.len() implies candidates.contains(
            #[trigger] chosen[i],
        ) by {
            assert(sorted[i] == chosen[i]);
            assert(sorted.to_multiset().count(chosen[i]) > 0);
        }
    }
}

/// Where every score is a number, candidates of equal score keep their order.
pub proof fn law_equal_scores_keep_their_order<C>(
    candidates: Seq<C>,
    score: spec_fn(C) -> Score,
    rank: int,
)
    requires
        candidates.len() > 0,
        forall|n: int| 0 <= n < candidates.len() ==> !score(#[trigger] candidates[n]).is_nan(),
    ensures
        sorted_by_score(candidates, score).filter(|c: C| score(c).rank() == rank)
            == candidates.filter(|c: C| score(c).rank() == rank),
{
    let key = |c: C| -score(c).rank();
    let of_the_rank = |c: C| score(c).rank() == rank;
    let sorted = sorted_by_score(candidates, score);
    law_best_candidates_come_first(candidates, score, 0, 0);
    lemma_stable_sorted(candidates, key);
    assert(with_key(sorted, key, -rank) == with_key(candidates, key, -rank));
    lemma_with_key_is_filter(sorted, key, -rank, of_the_rank);
    lemma_with_key_is_filter(candidates, key, -rank, of_the_rank);
}

/// A candidate whose score is not a number parts the others: those before it are put in
/// order among themselves, and so are those behind it.
pub proof fn law_unordered_candidates_part_the_others<C>(
    candidates: Seq<C>,
    score: spec_fn(C) -> Score,
    i: int,
)
    requires
        0 <= i < candidates.len(),
        score(candidates[i]).is_nan(),
    ensures
        sorted_by_score(candidates, score) == sorted_by_score(candidates.take(i), score).push(
            candidates[i],
        ) + sorted_by_score(candidates.skip(i + 1), score),
    decreases candidates.len(),
{
    let n = leading_numbers(candidates, score) as int;
    lemma_leading(candidates, score);
    let front = candidates.take(i);
    let key = |c: C| -score(c).rank();
    let run = stable_sorted(candidates.take(n), key);
    if n == i {
        lemma_leading_numbers(front, score, i);
        assert(front.take(i) =~= front);
        if i == 0 {
            assert(candidates.take(0) =~= Seq::empty());
            assert(run =~= Seq::empty());
            assert(sorted_by_score(front, score) =~= Seq::empty());
        }
    } else {
        let rest = candidates.skip(n + 1);
        law_unordered_candidates_part_the_others(rest, score, i - n - 1);
        lemma_leading_numbers(front, score, n);
        assert(front.take(n) =~= candidates.take(n));
        assert(front.skip(n + 1) =~= rest.take(i - n - 1));
        assert(rest.skip(i - n) =~= candidates.skip(i + 1));
        assert(sorted_by_score(candidates, score) =~= sorted_by_score(front, score).push(
            candidates[i],
        ) + sorted_by_score(candidates.skip(i + 1), score));
    }
}

proof fn lemma_leading<C>(s: Seq<C>, score: spec_fn(C) -> Score)
    ensures
        leading_numbers(s, score) <= s.len(),
        leading_numbers(s, score) < s.len() ==> score(
            s[leading_numbers(s, score) as int],
        ).is_nan(),
        forall|i: int|
            0 <= i < leading_numbers(s, score) ==> !score(#[trigger] s[i]).is_nan(),
    decreases s.len(),
{
    if s.len() > 0 && !score(s[0]).is_nan() {
        let rest = s.drop_first();
        lemma_leading(rest, score);
        assert forall|i: int| 0 <= i < leading_numbers(s, score) implies !score(
            #[trigger] s[i],
        ).is_nan() by {
            if i > 0 {
                assert(!score(rest[i - 1]).is_nan());
            }
        }
    }
}

// A whole run.

/// At first nothing was returned.
pub proof fn law_runs_begin_with_nothing<Q, C>()
    ensures
        no_outcomes::<Q, C>().query_hydrations.len() == 0,
        no_outcomes::<Q, C>().fetches.len() == 0,
        no_outcomes::<Q, C>().hydrations.len() == 0,
        no_outcomes::<Q, C>().handed_on.len() == 0,
        no_outcomes::<Q, C>().filterings.len() == 0,
        no_outcomes::<Q, C>().scorings.len() == 0,
        no_outcomes::<Q, C>().post_hydrations.len() == 0,
        no_outcomes::<Q, C>().post_filterings.len() == 0,
{
}

/// A run takes in whatever the awaited components can return: one result of each where
/// they work together, one result where they take turns.
pub proof fn law_runs_take_in_any_result<Q: HasRequestId + Duplicable, C: Duplicable>(
    run: PipelineRun<Q, C>,
    queries: Vec<Result<Q, String>>,
    candidates: Vec<Result<Vec<C>, String>>,
    parts: Result<FilterResult<C>, String>,
    scores: Result<Vec<C>, String>,
)
    ensures
        run.current_stage() == Some(PipelineStage::QueryHydrator) && queries@.len()
            == run.awaited().len() ==> run.awaits(StageOutcome::Queries(queries)),
        run.current_stage() == Some(PipelineStage::Source) && candidates@.len()
            == run.awaited().len() ==> run.awaits(StageOutcome::Candidates(candidates)),
        run.current_stage() == Some(PipelineStage::Hydrator) && candidates@.len()
            == run.awaited().len() ==> run.awaits(StageOutcome::Candidates(candidates)),
        run.current_stage() == Some(PipelineStage::PostSelectionHydrator) && candidates@.len()
            == run.awaited().len() ==> run.awaits(StageOutcome::Candidates(candidates)),
        run.current_stage() == Some(PipelineStage::Filter) ==> run.awaits(
            StageOutcome::Filtered(parts),
        ),
        run.current_stage() == Some(PipelineStage::PostSelectionFilter) ==> run.awaits(
            StageOutcome::Filtered(parts),
        ),
        run.current_stage() == Some(PipelineStage::Scorer) ==> run.awaits(
            StageOutcome::Scored(scores),
        ),
{
}

/// The stages build on one another: the query is filled in by the components that the
/// query which came in enables, and all that follows goes by the query as it was filled
/// in. The candidates of the sources are filled in and reported as retrieved; copies of
/// them are filtered, scored, selected, filled in and filtered again.
pub proof fn law_stages_build_on_one_another<
    Q: HasRequestId + Duplicable,
    C: Duplicable,
    P: CandidatePipeline<Q, C>,
>(result: PipelineResult<Q, C>, pipeline: P, query: Q, outcomes: Outcomes<Q, C>, i: int)
    requires
        is_complete(pipeline, query, outcomes),
        is_execution(result, pipeline, query, outcomes),
    ensures
        ({
            let full = *result.query;
            let kept = filtered(outcomes.handed_on, outcomes.filterings).0;
            let ranked = scored(
                pipeline.scorer_list(),
                enabled_positions(pipeline.scorer_list(), full),
                kept,
                outcomes.scorings,
            );
            let chosen = selected(pipeline.the_selector(), full, ranked);
            let filled_in = hydrated(
                pipeline.post_selection_hydrator_list(),
                enabled_positions(pipeline.post_selection_hydrator_list(), full),
                chosen,
                outcomes.post_hydrations,
            );
            let last = filtered(filled_in, outcomes.post_filterings);
            &&& full == merged_query(
                pipeline.query_hydrator_list(),
                enabled_positions(pipeline.query_hydrator_list(), query),
                query,
                outcomes.query_hydrations,
            )
            &&& result.retrieved_candidates@ == hydrated(
                pipeline.hydrator_list(),
                enabled_positions(pipeline.hydrator_list(), full),
                collected(outcomes.fetches),
                outcomes.hydrations,
            )
            &&& outcomes.handed_on.len() == result.retrieved_candidates@.len()
            &&& 0 <= i < result.retrieved_candidates@.len() ==> outcomes.handed_on[i].is_copy_of(
                result.retrieved_candidates@[i],
            )
            &&& result.filtered_candidates@ == filtered(outcomes.handed_on, outcomes.filterings).1
                + last.1
            &&& last.0.len() <= pipeline.max_results() ==> result.selected_candidates@ == last.0
            &&& last.0.len() > pipeline.max_results() ==> result.selected_candidates@
                == last.0.take(pipeline.max_results() as int)
        }),
{
}

/// What the scorers, the selected candidates' hydrators and the last filters are given
/// follows from what was given to those before them.
pub proof fn law_stages_hand_on_what_they_make<
    Q: HasRequestId + Duplicable,
    C: Duplicable,
    P: CandidatePipeline<Q, C>,
>(pipeline: P, query: Q, outcomes: Outcomes<Q, C>)
    ensures
        ({
            let full = query_after(pipeline, query, outcomes);
            let given = |stage: PipelineStage|
                candidates_at(pipeline, query, outcomes, Some(stage));
            &&& full == merged_query(
                pipeline.query_hydrator_list(),
                enabled_positions(pipeline.query_hydrator_list(), query),
                query,
                outcomes.query_hydrations,
            )
            &&& given(PipelineStage::Filter) == filtered(
                outcomes.handed_on,
                outcomes.filterings,
            ).0
            &&& given(PipelineStage::Scorer) == scored(
                pipeline.scorer_list(),
                enabled_positions(pipeline.scorer_list(), full),
                given(PipelineStage::Filter),
                outcomes.scorings,
            )
            &&& given(PipelineStage::PostSelectionFilter) == filtered(
                hydrated(
                    pipeline.post_selection_hydrator_list(),
                    enabled_positions(pipeline.post_selection_hydrator_list(), full),
                    given(PipelineStage::PostSelectionHydrator),
                    outcomes.post_hydrations,
                ),
                outcomes.post_filterings,
            ).0
        }),
{
}

/// Once the candidates are filled in, a copy of each goes on to the filters, in order.
pub proof fn law_copies_go_on_to_the_filters<
    Q: HasRequestId + Duplicable,
    C: Duplicable,
    P: CandidatePipeline<Q, C>,
>(
    pipeline: P,
    query: Q,
    next: Outcomes<Q, C>,
    outcomes: Outcomes<Q, C>,
    outcome: StageOutcome<Q, C>,
    i: int,
)
    requires
        is_recorded(pipeline, query, next, outcomes, PipelineStage::Hydrator, outcome),
    ensures
        ({
            let retrieved = hydrated(
                pipeline.hydrator_list(),
                enabled_positions(pipeline.hydrator_list(), query_after(pipeline, query, next)),
                collected(next.fetches),
                next.hydrations,
            );
            &&& next.handed_on.len() == retrieved.len()
            &&& 0 <= i < retrieved.len() ==> next.handed_on[i].is_copy_of(retrieved[i])
        }),
{
}

/// The request goes through its stages in order, and each filter and each scorer
/// that takes part gets its turn before the next stage.
pub proof fn law_stages_follow_one_another<
    Q: HasRequestId + Duplicable,
    C: Duplicable,
    P: CandidatePipeline<Q, C>,
>(pipeline: P, query: Q, outcomes: Outcomes<Q, C>)
    ensures
        ({
            let full = query_after(pipeline, query, outcomes);
            let filters = enabled_positions(pipeline.filter_list(), full).len();
            let scorers = enabled_positions(pipeline.scorer_list(), full).len();
            let last_filters = enabled_positions(pipeline.post_selection_filter_list(), full).len();
            let next = |stage: PipelineStage| stage_after(pipeline, query, outcomes, stage);
            &&& next(PipelineStage::QueryHydrator) == Some(PipelineStage::Source)
            &&& next(PipelineStage::Source) == Some(PipelineStage::Hydrator)
            &&& outcomes.filterings.len() < filters ==> next(PipelineStage::Hydrator) == Some(
                PipelineStage::Filter,
            ) && next(PipelineStage::Filter) == Some(PipelineStage::Filter)
            &&& outcomes.filterings.len() >= filters && outcomes.scorings.len() < scorers ==> next(
                PipelineStage::Hydrator,
            ) == Some(PipelineStage::Scorer) && next(PipelineStage::Filter) == Some(
                PipelineStage::Scorer,
            ) && next(PipelineStage::Scorer) == Some(PipelineStage::Scorer)
            &&& outcomes.filterings.len() >= filters && outcomes.scorings.len() >= scorers ==> next(
                PipelineStage::Hydrator,
            ) == Some(PipelineStage::PostSelectionHydrator) && next(PipelineStage::Filter) == Some(
                PipelineStage::PostSelectionHydrator,
            ) && next(PipelineStage::Scorer) == Some(PipelineStage::PostSelectionHydrator)
            &&& outcomes.post_filterings.len() < last_filters ==> next(
                PipelineStage::PostSelectionHydrator,
            ) == Some(PipelineStage::PostSelectionFilter) && next(
                PipelineStage::PostSelectionFilter,
            ) == Some(PipelineStage::PostSelectionFilter)
            &&& outcomes.post_filterings.len() >= last_filters ==> next(
                PipelineStage::PostSelectionHydrator,
            ) is None && next(PipelineStage::PostSelectionFilter) is None
        }),
{
}

/// The components that fill in the query are chosen by the query that came in, all
/// others by the query as it was filled in. Components that work together are all to
/// work; those that take turns follow the order of their list.
pub proof fn law_the_right_components_are_awaited<
    Q: HasRequestId + Duplicable,
    C: Duplicable,
    P: CandidatePipeline<Q, C>,
>(pipeline: P, query: Q, outcomes: Outcomes<Q, C>, place: usize)
    requires
        pipeline.query_hydrator_list().len() <= usize::MAX,
        pipeline.source_list().len() <= usize::MAX,
        pipeline.hydrator_list().len() <= usize::MAX,
        pipeline.post_selection_hydrator_list().len() <= usize::MAX,
    ensures
        ({
            let full = query_after(pipeline, query, outcomes);
            let awaited = |stage: PipelineStage|
                awaited_at(pipeline, query, outcomes, Some(stage));
            &&& place < pipeline.query_hydrator_list().len() ==> (awaited(
                PipelineStage::QueryHydrator,
            ).contains(place) <==> pipeline.query_hydrator_list()[place as int].is_enabled(query))
            &&& place < pipeline.source_list().len() ==> (awaited(PipelineStage::Source).contains(
                place,
            ) <==> pipeline.source_list()[place as int].is_enabled(full))
            &&& place < pipeline.hydrator_list().len() ==> (awaited(
                PipelineStage::Hydrator,
            ).contains(place) <==> pipeline.hydrator_list()[place as int].is_enabled(full))
            &&& place < pipeline.post_selection_hydrator_list().len() ==> (awaited(
                PipelineStage::PostSelectionHydrator,
            ).contains(place) <==> pipeline.post_selection_hydrator_list()[place as int].is_enabled(
                full,
            ))
            &&& awaited(PipelineStage::Filter) == seq![
                enabled_positions(pipeline.filter_list(), full)[outcomes.filterings.len() as int],
            ]
            &&& awaited(PipelineStage::Scorer) == seq![
                enabled_positions(pipeline.scorer_list(), full)[outcomes.scorings.len() as int],
            ]
            &&& awaited(PipelineStage::PostSelectionFilter) == seq![
                enabled_positions(
                    pipeline.post_selection_filter_list(),
                    full,
                )[outcomes.post_filterings.len() as int],
            ]
            &&& awaited_at(pipeline, query, outcomes, None).len() == 0
        }),
{
    let full = query_after(pipeline, query, outcomes);
    law_components_that_take_part_work(pipeline.query_hydrator_list(), query);
    law_components_that_take_part_work(pipeline.source_list(), full);
    law_components_that_take_part_work(pipeline.hydrator_list(), full);
    law_components_that_take_part_work(pipeline.post_selection_hydrator_list(), full);
}

/// What the filters, the scorers and the last filters are given: what came out of the
/// stage or the component before them.
pub proof fn law_components_are_given_what_came_before<
    Q: HasRequestId + Duplicable,
    C: Duplicable,
    P: CandidatePipeline<Q, C>,
>(pipeline: P, query: Q, outcomes: Outcomes<Q, C>)
    ensures
        ({
            let given = |stage: PipelineStage|
                candidates_at(pipeline, query, outcomes, Some(stage));
            let full = query_after(pipeline, query, outcomes);
            &&& given(PipelineStage::QueryHydrator).len() == 0
            &&& given(PipelineStage::Source).len() == 0
            &&& given(PipelineStage::Hydrator) == collected(outcomes.fetches)
            &&& outcomes.filterings.len() == 0 ==> given(PipelineStage::Filter)
                == outcomes.handed_on
            &&& outcomes.filterings.len() > 0 ==> (outcomes.filterings.last() matches Ok(parts)
                ==> given(PipelineStage::Filter) == parts.kept@)
            &&& outcomes.scorings.len() == 0 ==> given(PipelineStage::Scorer) == given(
                PipelineStage::Filter,
            )
            &&& given(PipelineStage::PostSelectionHydrator) == selected(
                pipeline.the_selector(),
                full,
                given(PipelineStage::Scorer),
            )
            &&& outcomes.post_hydrations.len() == 0 && outcomes.post_filterings.len() == 0 ==> given(
                PipelineStage::PostSelectionFilter,
            ) == given(PipelineStage::PostSelectionHydrator)
            &&& outcomes.post_filterings.len() > 0 ==> (
            outcomes.post_filterings.last() matches Ok(parts) ==> given(
                PipelineStage::PostSelectionFilter,
            ) == parts.kept@)
            &&& candidates_at(pipeline, query, outcomes, None) == given(
                PipelineStage::PostSelectionFilter,
            )
        }),
{
}

/// A request that is under way has the query, the candidates and the awaited
/// components that follow from what was returned so far.
pub proof fn law_runs_hold_what_follows<
    Q: HasRequestId + Duplicable,
    C: Duplicable,
    P: CandidatePipeline<Q, C>,
>(run: PipelineRun<Q, C>, pipeline: P, stage: Option<PipelineStage>, action: PipelineAction)
    requires
        run.is_at(pipeline, stage),
        run.is_next(action),
    ensures
        run.current_stage() == stage,
        run.query_now() == query_after(pipeline, run.start_query(), run.so_far()),
        run.candidates_now() == candidates_at(pipeline, run.start_query(), run.so_far(), stage),
        run.awaited() == awaited_at(pipeline, run.start_query(), run.so_far(), stage),
        stage is None <==> action == PipelineAction::Finish,
        stage matches Some(now) ==> (action matches PipelineAction::Run { stage: told, positions }
            && told == now && positions@ == run.awaited()),
{
}

/// What is returned in a stage is kept with the outcomes of that stage, and the
/// outcomes of the other stages stay as they are.
pub proof fn law_outcomes_are_kept_with_their_stage<
    Q: HasRequestId + Duplicable,
    C: Duplicable,
    P: CandidatePipeline<Q, C>,
>(
    pipeline: P,
    query: Q,
    next: Outcomes<Q, C>,
    outcomes: Outcomes<Q, C>,
    stage: PipelineStage,
    outcome: StageOutcome<Q, C>,
)
    requires
        is_recorded(pipeline, query, next, outcomes, stage, outcome),
    ensures
        !(stage is QueryHydrator) ==> next.query_hydrations == outcomes.query_hydrations,
        !(stage is Source) ==> next.fetches == outcomes.fetches,
        !(stage is Hydrator) ==> next.hydrations == outcomes.hydrations && next.handed_on
            == outcomes.handed_on,
        !(stage is Filter) ==> next.filterings == outcomes.filterings,
        !(stage is Scorer) ==> next.scorings == outcomes.scorings,
        !(stage is PostSelectionHydrator) ==> next.post_hydrations == outcomes.post_hydrations,
        !(stage is PostSelectionFilter) ==> next.post_filterings == outcomes.post_filterings,
        stage is QueryHydrator ==> (outcome matches StageOutcome::Queries(results)
            ==> next.query_hydrations == results@),
        stage is Source ==> (outcome matches StageOutcome::Candidates(results) ==> next.fetches
            == results@),
        stage is Hydrator ==> (outcome matches StageOutcome::Candidates(results)
            ==> next.hydrations == results@ && next.handed_on.len() == collected(
            outcomes.fetches,
        ).len()),
        stage is Filter ==> (outcome matches StageOutcome::Filtered(result) ==> next.filterings
            == outcomes.filterings.push(result)),
        stage is Scorer ==> (outcome matches StageOutcome::Scored(result) ==> next.scorings
            == outcomes.scorings.push(result)),
        stage is PostSelectionHydrator ==> (outcome matches StageOutcome::Candidates(results)
            ==> next.post_hydrations == results@),
        stage is PostSelectionFilter ==> (outcome matches StageOutcome::Filtered(result)
            ==> next.post_filterings == outcomes.post_filterings.push(result)),
{
    if stage is Hydrator && outcome is Candidates {
        let results = outcome->Candidates_0@;
        lemma_hydrated_len(
            pipeline.hydrator_list(),
            enabled_positions(pipeline.hydrator_list(), query_after(pipeline, query, next)),
            collected(outcomes.fetches),
            results,
        );
    }
}

/// A run is complete only if each component that takes part has returned something.
pub proof fn law_complete_runs_have_heard_from_all<
    Q: HasRequestId + Duplicable,
    C: Duplicable,
    P: CandidatePipeline<Q, C>,
>(pipeline: P, query: Q, outcomes: Outcomes<Q, C>)
    requires
        is_complete(pipeline, query, outcomes),
    ensures
        ({
            let full = query_after(pipeline, query, outcomes);
            &&& outcomes.query_hydrations.len() == enabled_positions(
                pipeline.query_hydrator_list(),
                query,
            ).len()
            &&& outcomes.fetches.len() == enabled_positions(pipeline.source_list(), full).len()
            &&& outcomes.hydrations.len() == enabled_positions(pipeline.hydrator_list(), full).len()
            &&& outcomes.filterings.len() == enabled_positions(pipeline.filter_list(), full).len()
            &&& outcomes.scorings.len() == enabled_positions(pipeline.scorer_list(), full).len()
            &&& outcomes.post_hydrations.len() == enabled_positions(
                pipeline.post_selection_hydrator_list(),
                full,
            ).len()
            &&& outcomes.post_filterings.len() == enabled_positions(
                pipeline.post_selection_filter_list(),
                full,
            ).len()
            &&& outcomes.handed_on.len() == collected(outcomes.fetches).len()
        }),
{
    let full = query_after(pipeline, query, outcomes);
    lemma_hydrated_len(
        pipeline.hydrator_list(),
        enabled_positions(pipeline.hydrator_list(), full),
        collected(outcomes.fetches),
        outcomes.hydrations,
    );
}

/// The answer: what the last filter that succeeded kept, as far as the pipeline hands
/// out. As many candidates are reported as retrieved as the sources brought, and a
/// candidate is reported as removed exactly if a filter removed it, before or after
/// the selection.
pub proof fn law_answers_come_out_of_the_last_stage<
    Q: HasRequestId + Duplicable,
    C: Duplicable,
    P: CandidatePipeline<Q, C>,
>(
    result: PipelineResult<Q, C>,
    pipeline: P,
    query: Q,
    outcomes: Outcomes<Q, C>,
    candidate: C,
)
    requires
        is_execution(result, pipeline, query, outcomes),
    ensures
        *result.query == query_after(pipeline, query, outcomes),
        outcomes.query_hydrations.len() == 0 ==> *result.query == query,
        ({
            let last = candidates_at(pipeline, query, outcomes, None);
            &&& last.len() <= pipeline.max_results() ==> result.selected_candidates@ == last
            &&& last.len() > pipeline.max_results() ==> result.selected_candidates@ == last.take(
                pipeline.max_results() as int,
            )
        }),
        outcomes.post_filterings.len() > 0 ==> (
        outcomes.post_filterings.last() matches Ok(parts) ==> {
            &&& parts.kept@.len() <= pipeline.max_results() ==> result.selected_candidates@
                == parts.kept@
            &&& parts.kept@.len() > pipeline.max_results() ==> result.selected_candidates@
                == parts.kept@.take(pipeline.max_results() as int)
        }),
        result.retrieved_candidates@.len() == collected(outcomes.fetches).len(),
        outcomes.hydrations.len() == 0 ==> result.retrieved_candidates@ == collected(
            outcomes.fetches,
        ),
        result.filtered_candidates@.contains(candidate) <==> (exists|n: int|
            0 <= n < outcomes.filterings.len() && (#[trigger] outcomes.filterings[n] matches Ok(
                parts,
            ) && parts.removed@.contains(candidate))) || (exists|n: int|
            0 <= n < outcomes.post_filterings.len() && (
            #[trigger] outcomes.post_filterings[n] matches Ok(parts) && parts.removed@.contains(
                candidate,
            ))),
{
    let full = query_after(pipeline, query, outcomes);
    lemma_hydrated_len(
        pipeline.hydrator_list(),
        enabled_positions(pipeline.hydrator_list(), full),
        collected(outcomes.fetches),
        outcomes.hydrations,
    );
    let before = filtered(outcomes.handed_on, outcomes.filterings).1;
    let after = post_filtered_after(pipeline, query, outcomes).1;
    law_removed_candidates_were_removed_by_a_filter(
        outcomes.handed_on,
        outcomes.filterings,
        candidate,
    );
    law_removed_candidates_were_removed_by_a_filter(
        post_hydrated_after(pipeline, query, outcomes),
        outcomes.post_filterings,
        candidate,
    );
    assert(result.filtered_candidates@ == before + after);
    if before.contains(candidate) {
        assert((before + after)[before.index_of(candidate)] == candidate);
    }
    if after.contains(candidate) {
        assert((before + after)[before.len() + after.index_of(candidate)] == candidate);
    }
    if result.filtered_candidates@.contains(candidate) {
        let place = (before + after).index_of(candidate);
        if place < before.len() {
            assert(before[place] == candidate);
        } else {
            assert(after[place - before.len()] == candidate);
        }
    }
}

/// Copies stand in the order of the originals, one for each.
pub proof fn law_copies_stand_for_their_originals<T: Duplicable>(
    copies: Seq<T>,
    originals: Seq<T>,
    i: int,
)
    requires
        are_copies(copies, originals),
        0 <= i < originals.len(),
    ensures
        copies.len() == originals.len(),
        copies[i].is_copy_of(originals[i]),
{
}

// Scores.

/// Scores are ordered as the numbers are whose bits they carry: of two without a sign
/// the one with the greater bits is greater, of two with a sign the one with the
/// smaller, and one with a sign is greater than none without. The two zeros are equal.
/// What is not a number is neither greater nor smaller than anything.
pub proof fn law_scores_are_ordered_as_numbers(a: Score, b: Score)
    ensures
        // Infinity has the greatest bits of a number.
        a.is_nan() <==> 0x7ff0_0000_0000_0000 < a.bits < 0x8000_0000_0000_0000 || a.bits
            > 0xfff0_0000_0000_0000,
        a.is_nan() || b.is_nan() ==> !a.exceeds(b) && !b.exceeds(a),
        !a.is_nan() && !b.is_nan() && a.bits < 0x8000_0000_0000_0000 && b.bits
            < 0x8000_0000_0000_0000 ==> (a.exceeds(b) <==> a.bits > b.bits) && (a.rank() < b.rank()
            <==> a.bits < b.bits),
        !a.is_nan() && !b.is_nan() && a.bits >= 0x8000_0000_0000_0000 && b.bits
            >= 0x8000_0000_0000_0000 ==> (a.exceeds(b) <==> a.bits < b.bits) && (a.rank()
            < b.rank() <==> a.bits > b.bits),
        !a.is_nan() && !b.is_nan() && a.bits < 0x8000_0000_0000_0000 && b.bits
            >= 0x8000_0000_0000_0000 ==> !b.exceeds(a) && b.rank() <= a.rank() && (a.exceeds(b)
            <==> a.bits > 0 || b.bits > 0x8000_0000_0000_0000),
        !a.is_nan() && !b.is_nan() ==> (a.exceeds(b) <==> a.rank() > b.rank()),
        (Score { bits: 0 }).rank() == 0,
{
}

} // verus!

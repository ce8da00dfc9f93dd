//! A pipeline, and a request's way through its stages.
//!
//! The components of a pipeline do their work elsewhere: they call services and
//! wait. A `PipelineRun` says which components are to work next, takes in what
//! came of it, and goes on. A component that fails does not stop the run; what
//! the run had before stays.

use std::sync::Arc;
use vstd::prelude::*;

use crate::candidate_pipeline::component::{merged_all, Duplicable};
use crate::candidate_pipeline::filter::{Filter, FilterResult};
use crate::candidate_pipeline::hydrator::Hydrator;
use crate::candidate_pipeline::query_hydrator::QueryHydrator;
use crate::candidate_pipeline::scorer::Scorer;
use crate::candidate_pipeline::selector::{picked, Selector};
use crate::candidate_pipeline::side_effect::SideEffect;
use crate::candidate_pipeline::source::Source;
use crate::seqs::reversed;

verus! {

/// The stages in which components of a pipeline work.
#[derive(Copy, Clone, Debug, PartialEq, Eq, Structural)]
pub enum PipelineStage {
    /// Fields of the query are filled in.
    QueryHydrator,
    /// Candidates are brought in.
    Source,
    /// Fields of the candidates are filled in.
    Hydrator,
    /// Fields of the candidates that were selected are filled in.
    PostSelectionHydrator,
    /// Candidates are removed.
    Filter,
    /// Candidates that were selected are removed.
    PostSelectionFilter,
    /// Candidates are scored.
    Scorer,
}

/// What a pipeline makes of a request.
pub struct PipelineResult<Q, C> {
    /// The candidates that were brought in, with their fields filled in.
    pub retrieved_candidates: Vec<C>,
    /// The candidates that filters removed, before and after the selection.
    pub filtered_candidates: Vec<C>,
    /// The candidates that answer the request.
    pub selected_candidates: Vec<C>,
    /// The query with its fields filled in.
    pub query: Arc<Q>,
}

/// A query that can be told apart in logs.
pub trait HasRequestId {
    /// The text that tells the query apart.
    spec fn request_id_text(&self) -> Seq<char>;

    /// The text that tells the query apart.
    fn request_id(&self) -> (id: &str)
        ensures
            id@ == self.request_id_text(),
    ;
}

/// A pipeline: which components work in each stage.
pub trait CandidatePipeline<Q: HasRequestId + Duplicable, C: Duplicable>: Sized {
    type QueryHydrator: QueryHydrator<Q>;

    type Source: Source<Q, C>;

    type Hydrator: Hydrator<Q, C>;

    type Filter: Filter<Q, C>;

    type Scorer: Scorer<Q, C>;

    type Selector: Selector<Q, C>;

    type SideEffect: SideEffect<Q, C>;

    spec fn query_hydrator_list(&self) -> Seq<Self::QueryHydrator>;

    spec fn source_list(&self) -> Seq<Self::Source>;

    spec fn hydrator_list(&self) -> Seq<Self::Hydrator>;

    spec fn filter_list(&self) -> Seq<Self::Filter>;

    spec fn scorer_list(&self) -> Seq<Self::Scorer>;

    spec fn the_selector(&self) -> Self::Selector;

    spec fn post_selection_hydrator_list(&self) -> Seq<Self::Hydrator>;

    spec fn post_selection_filter_list(&self) -> Seq<Self::Filter>;

    spec fn side_effect_list(&self) -> Seq<Self::SideEffect>;

    spec fn max_results(&self) -> usize;

    /// The components that fill in the query. They work at the same time.
    fn query_hydrators(&self) -> (list: &Vec<Self::QueryHydrator>)
        ensures
            list@ == self.query_hydrator_list(),
    ;

    /// The components that bring candidates in. They work at the same time.
    fn sources(&self) -> (list: &Vec<Self::Source>)
        ensures
            list@ == self.source_list(),
    ;

    /// The components that fill in the candidates. They work at the same time.
    fn hydrators(&self) -> (list: &Vec<Self::Hydrator>)
        ensures
            list@ == self.hydrator_list(),
    ;

    /// The components that remove candidates. They work one after the other.
    fn filters(&self) -> (list: &Vec<Self::Filter>)
        ensures
            list@ == self.filter_list(),
    ;

    /// The components that score candidates. They work one after the other.
    fn scorers(&self) -> (list: &Vec<Self::Scorer>)
        ensures
            list@ == self.scorer_list(),
    ;

    /// The component that picks the best candidates.
    fn selector(&self) -> (selector: &Self::Selector)
        ensures
            *selector == self.the_selector(),
    ;

    /// The components that fill in the candidates that were selected. They work
    /// at the same time.
    fn post_selection_hydrators(&self) -> (list: &Vec<Self::Hydrator>)
        ensures
            list@ == self.post_selection_hydrator_list(),
    ;

    /// The components that remove candidates that were selected. They work one
    /// after the other.
    fn post_selection_filters(&self) -> (list: &Vec<Self::Filter>)
        ensures
            list@ == self.post_selection_filter_list(),
    ;

    /// The components that act on the result.
    fn side_effects(&self) -> (list: &Vec<Self::SideEffect>)
        ensures
            list@ == self.side_effect_list(),
    ;

    /// How many candidates answer a request at most.
    fn result_size(&self) -> (size: usize)
        ensures
            size == self.max_results(),
    ;
}

// What each stage makes of what its components returned.

/// The query, updated by each component that succeeded.
pub open spec fn merged_query<Q, H: QueryHydrator<Q>>(
    hydrators: Seq<H>,
    positions: Seq<usize>,
    query: Q,
    results: Seq<Result<Q, String>>,
) -> Q
    decreases results.len(),
{
    if results.len() == 0 {
        query
    } else {
        let before = merged_query(hydrators, positions, query, results.drop_last());
        match results.last() {
            Ok(hydrated) => hydrators[positions[results.len() - 1] as int].updated(
                before,
                hydrated,
            ),
            Err(_) => before,
        }
    }
}

/// The candidates that were brought in, those of one source after those of the
/// other. Sources that failed bring none.
pub open spec fn collected<C>(results: Seq<Result<Vec<C>, String>>) -> Seq<C>
    decreases results.len(),
{
    if results.len() == 0 {
        Seq::empty()
    } else {
        let before = collected(results.drop_last());
        match results.last() {
            Ok(candidates) => before + candidates@,
            Err(_) => before,
        }
    }
}

/// The candidates, updated by each component that succeeded and returned one
/// candidate for each.
pub open spec fn hydrated<Q, C, H: Hydrator<Q, C>>(
    hydrators: Seq<H>,
    positions: Seq<usize>,
    candidates: Seq<C>,
    results: Seq<Result<Vec<C>, String>>,
) -> Seq<C>
    decreases results.len(),
{
    if results.len() == 0 {
        candidates
    } else {
        let before = hydrated(hydrators, positions, candidates, results.drop_last());
        match results.last() {
            Ok(updates) => if updates@.len() == candidates.len() {
                let hydrator = hydrators[positions[results.len() - 1] as int];
                merged_all(before, updates@, |c: C, h: C| hydrator.updated(c, h))
            } else {
                before
            },
            Err(_) => before,
        }
    }
}

/// The candidates that are left, and those that were removed. A filter that
/// failed removes none.
pub open spec fn filtered<C>(
    candidates: Seq<C>,
    results: Seq<Result<FilterResult<C>, String>>,
) -> (Seq<C>, Seq<C>)
    decreases results.len(),
{
    if results.len() == 0 {
        (candidates, Seq::empty())
    } else {
        let before = filtered(candidates, results.drop_last());
        match results.last() {
            Ok(parts) => (parts.kept@, before.1 + parts.removed@),
            Err(_) => before,
        }
    }
}

/// The candidates, scored by each component that succeeded and returned one
/// candidate for each.
pub open spec fn scored<Q, C, S: Scorer<Q, C>>(
    scorers: Seq<S>,
    positions: Seq<usize>,
    candidates: Seq<C>,
    results: Seq<Result<Vec<C>, String>>,
) -> Seq<C>
    decreases results.len(),
{
    if results.len() == 0 {
        candidates
    } else {
        let before = scored(scorers, positions, candidates, results.drop_last());
        match results.last() {
            Ok(updates) => if updates@.len() == candidates.len() {
                let scorer = scorers[positions[results.len() - 1] as int];
                merged_all(before, updates@, |c: C, s: C| scorer.updated(c, s))
            } else {
                before
            },
            Err(_) => before,
        }
    }
}

/// The candidates that the selector picks; all of them where it takes no part.
pub open spec fn selected<Q, C, S: Selector<Q, C>>(
    selector: S,
    query: Q,
    candidates: Seq<C>,
) -> Seq<C> {
    if selector.is_enabled(query) {
        picked(candidates, |c: C| selector.score_of(c), selector.limit())
    } else {
        candidates
    }
}

/// Runs the query through the results of the components that fill it in.
pub fn hydrate_query<Q, H: QueryHydrator<Q>>(
    hydrators: &Vec<H>,
    positions: &Vec<usize>,
    query: Q,
    results: Vec<Result<Q, String>>,
) -> (merged: Q)
    requires
        positions@.len() == results@.len(),
        forall|i: int| 0 <= i < positions@.len() ==> #[trigger] positions@[i] < hydrators@.len(),
    ensures
        merged == merged_query(hydrators@, positions@, query, results@),
{
    let ghost all = results@;
    let mut merged = query;
    let mut upcoming = reversed(results);
    let mut i: usize = 0;
    assert(all.take(0) =~= Seq::empty());
    while i < positions.len()
        invariant
            i <= positions.len(),
            positions@.len() == all.len(),
            forall|n: int|
                0 <= n < positions@.len() ==> #[trigger] positions@[n] < hydrators@.len(),
            upcoming@.len() == all.len() - i,
            forall|n: int|
                0 <= n < upcoming@.len() ==> #[trigger] upcoming@[n] == all[all.len() - 1 - n],
            merged == merged_query(hydrators@, positions@, query, all.take(i as int)),
        decreases positions.len() - i,
    {
        assert(all.take(i + 1).drop_last() =~= all.take(i as int));
        if let Some(result) = upcoming.pop() {
            assert(result == all[i as int]);
            match result {
                Ok(hydrated) => {
                    hydrators[positions[i]].update(&mut merged, hydrated);
                },
                Err(_) => {},
            }
        }
        i = i + 1;
    }
    assert(all.take(i as int) =~= all);
    merged
}

/// Gathers what the sources brought in.
pub fn fetch_candidates<C>(results: Vec<Result<Vec<C>, String>>) -> (candidates: Vec<C>)
    ensures
        candidates@ == collected(results@),
{
    let ghost all = results@;
    let mut candidates: Vec<C> = Vec::new();
    let mut upcoming = reversed(results);
    let ghost mut i: int = 0;
    assert(all.take(0) =~= Seq::empty());
    while upcoming.len() > 0
        invariant
            0 <= i <= all.len(),
            upcoming@.len() == all.len() - i,
            forall|n: int|
                0 <= n < upcoming@.len() ==> #[trigger] upcoming@[n] == all[all.len() - 1 - n],
            candidates@ == collected(all.take(i)),
        decreases upcoming@.len(),
    {
        assert(all.take(i + 1).drop_last() =~= all.take(i));
        if let Some(result) = upcoming.pop() {
            assert(result == all[i]);
            match result {
                Ok(mut fetched) => {
                    candidates.append(&mut fetched);
                },
                Err(_) => {},
            }
        }
        proof {
            i = i + 1;
        }
    }
    assert(all.take(i) =~= all);
    candidates
}

/// Runs the candidates through the results of the components that fill them in.
pub fn run_hydrators<Q, C, H: Hydrator<Q, C>>(
    hydrators: &Vec<H>,
    positions: &Vec<usize>,
    candidates: Vec<C>,
    results: Vec<Result<Vec<C>, String>>,
) -> (updated: Vec<C>)
    requires
        positions@.len() == results@.len(),
        forall|i: int| 0 <= i < positions@.len() ==> #[trigger] positions@[i] < hydrators@.len(),
    ensures
        updated@ == hydrated(hydrators@, positions@, candidates@, results@),
{
    let ghost all = results@;
    let ghost given = candidates@;
    let expected = candidates.len();
    let mut updated = candidates;
    let mut upcoming = reversed(results);
    let mut i: usize = 0;
    assert(all.take(0) =~= Seq::empty());
    while i < positions.len()
        invariant
            i <= positions.len(),
            expected == given.len(),
            positions@.len() == all.len(),
            forall|n: int|
                0 <= n < positions@.len() ==> #[trigger] positions@[n] < hydrators@.len(),
            upcoming@.len() == all.len() - i,
            forall|n: int|
                0 <= n < upcoming@.len() ==> #[trigger] upcoming@[n] == all[all.len() - 1 - n],
            updated@ == hydrated(hydrators@, positions@, given, all.take(i as int)),
        decreases positions.len() - i,
    {
        assert(all.take(i + 1).drop_last() =~= all.take(i as int));
        if let Some(result) = upcoming.pop() {
            assert(result == all[i as int]);
            match result {
                Ok(updates) => {
                    if updates.len() == expected {
                        hydrators[positions[i]].update_all(&mut updated, updates);
                    }
                },
                Err(_) => {},
            }
        }
        i = i + 1;
    }
    assert(all.take(i as int) =~= all);
    updated
}

} // verus!

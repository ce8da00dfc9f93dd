//! A request's way through the stages of a pipeline.

use std::sync::Arc;
use vstd::prelude::*;

use crate::candidate_pipeline::candidate_pipeline::{
    collected, fetch_candidates, filtered, hydrate_query, hydrated, merged_query, run_hydrators,
    scored, selected, CandidatePipeline, HasRequestId, PipelineResult, PipelineStage,
};
use crate::candidate_pipeline::component::{
    are_copies, duplicate_all, enabled_positions, find_enabled, Component, Duplicable,
};
use crate::candidate_pipeline::filter::FilterResult;
use crate::candidate_pipeline::laws::law_scorers_keep_the_number;
use crate::candidate_pipeline::scorer::Scorer;
use crate::candidate_pipeline::selector::Selector;
use crate::candidate_pipeline::side_effect::SideEffectInput;
use crate::seqs::first;

verus! {

/// What the components of a stage returned.
pub enum StageOutcome<Q, C> {
    /// The queries that components returned, one result for each component.
    Queries(Vec<Result<Q, String>>),
    /// The candidates that components returned, one result for each component.
    Candidates(Vec<Result<Vec<C>, String>>),
    /// What one filter returned.
    Filtered(Result<FilterResult<C>, String>),
    /// What one scorer returned.
    Scored(Result<Vec<C>, String>),
}

/// What is to be done next.
#[derive(Clone, Debug, PartialEq, Eq)]
pub enum PipelineAction {
    /// Let the components at `positions` of the list of `stage` work, all at the
    /// same time.
    Run { stage: PipelineStage, positions: Vec<usize> },
    /// Nothing: the request is answered.
    Finish,
}

/// Everything that components returned to one request, and what was handed on.
#[verifier::ext_equal]
pub struct Outcomes<Q, C> {
    pub query_hydrations: Seq<Result<Q, String>>,
    pub fetches: Seq<Result<Vec<C>, String>>,
    pub hydrations: Seq<Result<Vec<C>, String>>,
    /// The copies of the candidates that went on to the filters.
    pub handed_on: Seq<C>,
    pub filterings: Seq<Result<FilterResult<C>, String>>,
    pub scorings: Seq<Result<Vec<C>, String>>,
    pub post_hydrations: Seq<Result<Vec<C>, String>>,
    pub post_filterings: Seq<Result<FilterResult<C>, String>>,
}

/// Nothing was returned yet.
pub open spec fn no_outcomes<Q, C>() -> Outcomes<Q, C> {
    Outcomes {
        query_hydrations: Seq::empty(),
        fetches: Seq::empty(),
        hydrations: Seq::empty(),
        handed_on: Seq::empty(),
        filterings: Seq::empty(),
        scorings: Seq::empty(),
        post_hydrations: Seq::empty(),
        post_filterings: Seq::empty(),
    }
}

/// `outcomes` and what the components of `stage` returned.
pub open spec fn recorded<Q, C>(
    outcomes: Outcomes<Q, C>,
    stage: PipelineStage,
    outcome: StageOutcome<Q, C>,
) -> Outcomes<Q, C> {
    match (stage, outcome) {
        (PipelineStage::QueryHydrator, StageOutcome::Queries(results)) => Outcomes {
            query_hydrations: results@,
            ..outcomes
        },
        (PipelineStage::Source, StageOutcome::Candidates(results)) => Outcomes {
            fetches: results@,
            ..outcomes
        },
        (PipelineStage::Hydrator, StageOutcome::Candidates(results)) => Outcomes {
            hydrations: results@,
            ..outcomes
        },
        (PipelineStage::Filter, StageOutcome::Filtered(result)) => Outcomes {
            filterings: outcomes.filterings.push(result),
            ..outcomes
        },
        (PipelineStage::Scorer, StageOutcome::Scored(result)) => Outcomes {
            scorings: outcomes.scorings.push(result),
            ..outcomes
        },
        (PipelineStage::PostSelectionHydrator, StageOutcome::Candidates(results)) => Outcomes {
            post_hydrations: results@,
            ..outcomes
        },
        (PipelineStage::PostSelectionFilter, StageOutcome::Filtered(result)) => Outcomes {
            post_filterings: outcomes.post_filterings.push(result),
            ..outcomes
        },
        _ => outcomes,
    }
}

/// `next` is `outcomes` and what the components of `stage` returned. Once the
/// fields of the candidates are filled in, copies of them go on to the filters.
pub open spec fn is_recorded<
    Q: HasRequestId + Duplicable,
    C: Duplicable,
    P: CandidatePipeline<Q, C>,
>(
    pipeline: P,
    query: Q,
    next: Outcomes<Q, C>,
    outcomes: Outcomes<Q, C>,
    stage: PipelineStage,
    outcome: StageOutcome<Q, C>,
) -> bool {
    &&& next == (Outcomes { handed_on: next.handed_on, ..recorded(outcomes, stage, outcome) })
    &&& match stage {
        PipelineStage::Hydrator => are_copies(
            next.handed_on,
            retrieved_after(pipeline, query, next),
        ),
        _ => next.handed_on == outcomes.handed_on,
    }
}

/// The query after its fields are filled in.
pub open spec fn query_after<
    Q: HasRequestId + Duplicable,
    C: Duplicable,
    P: CandidatePipeline<Q, C>,
>(
    pipeline: P,
    query: Q,
    outcomes: Outcomes<Q, C>,
) -> Q {
    merged_query(
        pipeline.query_hydrator_list(),
        enabled_positions(pipeline.query_hydrator_list(), query),
        query,
        outcomes.query_hydrations,
    )
}

/// The candidates after their fields are filled in.
pub open spec fn retrieved_after<
    Q: HasRequestId + Duplicable,
    C: Duplicable,
    P: CandidatePipeline<Q, C>,
>(pipeline: P, query: Q, outcomes: Outcomes<Q, C>) -> Seq<C> {
    hydrated(
        pipeline.hydrator_list(),
        enabled_positions(pipeline.hydrator_list(), query_after(pipeline, query, outcomes)),
        collected(outcomes.fetches),
        outcomes.hydrations,
    )
}

/// The candidates that are left after the filters, and those that are not.
pub open spec fn filtered_after<Q, C>(outcomes: Outcomes<Q, C>) -> (Seq<C>, Seq<C>) {
    filtered(outcomes.handed_on, outcomes.filterings)
}

/// The candidates after they are scored.
pub open spec fn scored_after<
    Q: HasRequestId + Duplicable,
    C: Duplicable,
    P: CandidatePipeline<Q, C>,
>(
    pipeline: P,
    query: Q,
    outcomes: Outcomes<Q, C>,
) -> Seq<C> {
    scored(
        pipeline.scorer_list(),
        enabled_positions(pipeline.scorer_list(), query_after(pipeline, query, outcomes)),
        filtered_after(outcomes).0,
        outcomes.scorings,
    )
}

/// The candidates that are selected.
pub open spec fn selected_after<
    Q: HasRequestId + Duplicable,
    C: Duplicable,
    P: CandidatePipeline<Q, C>,
>(pipeline: P, query: Q, outcomes: Outcomes<Q, C>) -> Seq<C> {
    selected(
        pipeline.the_selector(),
        query_after(pipeline, query, outcomes),
        scored_after(pipeline, query, outcomes),
    )
}

/// The candidates that are selected, after their fields are filled in.
pub open spec fn post_hydrated_after<
    Q: HasRequestId + Duplicable,
    C: Duplicable,
    P: CandidatePipeline<Q, C>,
>(pipeline: P, query: Q, outcomes: Outcomes<Q, C>) -> Seq<C> {
    hydrated(
        pipeline.post_selection_hydrator_list(),
        enabled_positions(
            pipeline.post_selection_hydrator_list(),
            query_after(pipeline, query, outcomes),
        ),
        selected_after(pipeline, query, outcomes),
        outcomes.post_hydrations,
    )
}

/// The candidates that are left after the last filters, and those that are not.
pub open spec fn post_filtered_after<
    Q: HasRequestId + Duplicable,
    C: Duplicable,
    P: CandidatePipeline<Q, C>,
>(pipeline: P, query: Q, outcomes: Outcomes<Q, C>) -> (Seq<C>, Seq<C>) {
    filtered(post_hydrated_after(pipeline, query, outcomes), outcomes.post_filterings)
}

/// Whether every component that takes part has returned something, and copies of
/// the candidates went on to the filters.
pub open spec fn is_complete<
    Q: HasRequestId + Duplicable,
    C: Duplicable,
    P: CandidatePipeline<Q, C>,
>(
    pipeline: P,
    query: Q,
    outcomes: Outcomes<Q, C>,
) -> bool {
    let full = query_after(pipeline, query, outcomes);
    &&& outcomes.query_hydrations.len() == enabled_positions(
        pipeline.query_hydrator_list(),
        query,
    ).len()
    &&& outcomes.fetches.len() == enabled_positions(pipeline.source_list(), full).len()
    &&& outcomes.hydrations.len() == enabled_positions(pipeline.hydrator_list(), full).len()
    &&& are_copies(outcomes.handed_on, retrieved_after(pipeline, query, outcomes))
    &&& outcomes.filterings.len() == enabled_positions(pipeline.filter_list(), full).len()
    &&& outcomes.scorings.len() == enabled_positions(pipeline.scorer_list(), full).len()
    &&& outcomes.post_hydrations.len() == enabled_positions(
        pipeline.post_selection_hydrator_list(),
        full,
    ).len()
    &&& outcomes.post_filterings.len() == enabled_positions(
        pipeline.post_selection_filter_list(),
        full,
    ).len()
}

/// `result` is what the pipeline makes of `query` where its components return
/// `outcomes`.
pub open spec fn is_execution<
    Q: HasRequestId + Duplicable,
    C: Duplicable,
    P: CandidatePipeline<Q, C>,
>(
    result: PipelineResult<Q, C>,
    pipeline: P,
    query: Q,
    outcomes: Outcomes<Q, C>,
) -> bool {
    &&& *result.query == query_after(pipeline, query, outcomes)
    &&& result.retrieved_candidates@ == retrieved_after(pipeline, query, outcomes)
    &&& result.filtered_candidates@ == filtered_after(outcomes).1
        + post_filtered_after(pipeline, query, outcomes).1
    &&& result.selected_candidates@ == first(
        post_filtered_after(pipeline, query, outcomes).0,
        pipeline.max_results() as nat,
    )
}

/// The stage that follows once the components that were to work in `stage` have
/// returned; `None` for the end. `outcomes` holds what they returned. The filters
/// and the scorers work one after the other, so their stages last until each of
/// them has returned; a stage of these in which no component takes part is passed
/// over.
pub open spec fn stage_after<
    Q: HasRequestId + Duplicable,
    C: Duplicable,
    P: CandidatePipeline<Q, C>,
>(
    pipeline: P,
    query: Q,
    outcomes: Outcomes<Q, C>,
    stage: PipelineStage,
) -> Option<PipelineStage> {
    let full = query_after(pipeline, query, outcomes);
    match stage {
        PipelineStage::QueryHydrator => Some(PipelineStage::Source),
        PipelineStage::Source => Some(PipelineStage::Hydrator),
        PipelineStage::Hydrator | PipelineStage::Filter | PipelineStage::Scorer => if
        outcomes.filterings.len() < enabled_positions(pipeline.filter_list(), full).len() {
            Some(PipelineStage::Filter)
        } else if outcomes.scorings.len() < enabled_positions(pipeline.scorer_list(), full).len() {
            Some(PipelineStage::Scorer)
        } else {
            Some(PipelineStage::PostSelectionHydrator)
        },
        PipelineStage::PostSelectionHydrator | PipelineStage::PostSelectionFilter => if
        outcomes.post_filterings.len() < enabled_positions(
            pipeline.post_selection_filter_list(),
            full,
        ).len() {
            Some(PipelineStage::PostSelectionFilter)
        } else {
            None
        },
    }
}

/// The candidates that the components of `stage` are given; for `None` those that
/// come out at the end.
pub open spec fn candidates_at<
    Q: HasRequestId + Duplicable,
    C: Duplicable,
    P: CandidatePipeline<Q, C>,
>(pipeline: P, query: Q, outcomes: Outcomes<Q, C>, stage: Option<PipelineStage>) -> Seq<C> {
    match stage {
        Some(PipelineStage::QueryHydrator) | Some(PipelineStage::Source) => Seq::empty(),
        Some(PipelineStage::Hydrator) => collected(outcomes.fetches),
        Some(PipelineStage::Filter) => filtered_after(outcomes).0,
        Some(PipelineStage::Scorer) => scored_after(pipeline, query, outcomes),
        Some(PipelineStage::PostSelectionHydrator) => selected_after(pipeline, query, outcomes),
        Some(PipelineStage::PostSelectionFilter) | None => post_filtered_after(
            pipeline,
            query,
            outcomes,
        ).0,
    }
}

/// The components that work next in `stage`: all that take part where they work
/// at the same time, or the first that has not returned yet where they take
/// turns.
pub open spec fn awaited_at<
    Q: HasRequestId + Duplicable,
    C: Duplicable,
    P: CandidatePipeline<Q, C>,
>(pipeline: P, query: Q, outcomes: Outcomes<Q, C>, stage: Option<PipelineStage>) -> Seq<usize> {
    let full = query_after(pipeline, query, outcomes);
    match stage {
        Some(PipelineStage::QueryHydrator) => enabled_positions(
            pipeline.query_hydrator_list(),
            query,
        ),
        Some(PipelineStage::Source) => enabled_positions(pipeline.source_list(), full),
        Some(PipelineStage::Hydrator) => enabled_positions(pipeline.hydrator_list(), full),
        Some(PipelineStage::Filter) => seq![
            enabled_positions(pipeline.filter_list(), full)[outcomes.filterings.len() as int],
        ],
        Some(PipelineStage::Scorer) => seq![
            enabled_positions(pipeline.scorer_list(), full)[outcomes.scorings.len() as int],
        ],
        Some(PipelineStage::PostSelectionHydrator) => enabled_positions(
            pipeline.post_selection_hydrator_list(),
            full,
        ),
        Some(PipelineStage::PostSelectionFilter) => seq![
            enabled_positions(
                pipeline.post_selection_filter_list(),
                full,
            )[outcomes.post_filterings.len() as int],
        ],
        None => Seq::empty(),
    }
}

/// A request on its way through the stages of a pipeline.
pub struct PipelineRun<Q, C> {
    stage: Option<PipelineStage>,
    query: Q,
    candidates: Vec<C>,
    retrieved: Vec<C>,
    removed: Vec<C>,
    positions: Vec<usize>,
    done: usize,
    start: Ghost<Q>,
    outcomes: Ghost<Outcomes<Q, C>>,
}

impl<Q: HasRequestId + Duplicable, C: Duplicable> PipelineRun<Q, C> {
    /// The stage that the request is in; `None` once it is through.
    pub closed spec fn current_stage(&self) -> Option<PipelineStage> {
        self.stage
    }

    /// The query with which the request began.
    pub closed spec fn start_query(&self) -> Q {
        self.start@
    }

    /// What components returned so far.
    pub closed spec fn so_far(&self) -> Outcomes<Q, C> {
        self.outcomes@
    }

    /// The query as it is now.
    pub closed spec fn query_now(&self) -> Q {
        self.query
    }

    /// The candidates as they are now.
    pub closed spec fn candidates_now(&self) -> Seq<C> {
        self.candidates@
    }

    /// The components that are to work: all of those of a stage whose components
    /// work at the same time, or the next one of a stage whose components take
    /// turns.
    pub closed spec fn awaited(&self) -> Seq<usize> {
        match self.stage {
            Some(PipelineStage::Filter) | Some(PipelineStage::Scorer) | Some(
                PipelineStage::PostSelectionFilter,
            ) => seq![self.positions@[self.done as int]],
            Some(_) => self.positions@,
            None => Seq::empty(),
        }
    }

    /// The run holds what the stages up to now make of what was returned.
    pub closed spec fn inv<P: CandidatePipeline<Q, C>>(&self, pipeline: P) -> bool {
        let o = self.outcomes@;
        let q = self.start@;
        let full = query_after(pipeline, q, o);
        let kept_out = filtered_after(o).1;
        match self.stage {
            Some(PipelineStage::QueryHydrator) => {
                &&& o == no_outcomes::<Q, C>()
                &&& self.query == q
                &&& self.candidates@.len() == 0
                &&& self.removed@.len() == 0
                &&& self.positions@ == enabled_positions(pipeline.query_hydrator_list(), q)
                &&& forall|i: int|
                    0 <= i < self.positions@.len() ==> #[trigger] self.positions@[i]
                        < pipeline.query_hydrator_list().len()
            },
            Some(PipelineStage::Source) => {
                &&& o == Outcomes::<Q, C> {
                    query_hydrations: o.query_hydrations,
                    ..no_outcomes()
                }
                &&& o.query_hydrations.len() == enabled_positions(
                    pipeline.query_hydrator_list(),
                    q,
                ).len()
                &&& self.query == full
                &&& self.candidates@.len() == 0
                &&& self.removed@.len() == 0
                &&& self.positions@ == enabled_positions(pipeline.source_list(), full)
            },
            Some(PipelineStage::Hydrator) => {
                &&& o == Outcomes::<Q, C> {
                    query_hydrations: o.query_hydrations,
                    fetches: o.fetches,
                    ..no_outcomes()
                }
                &&& o.query_hydrations.len() == enabled_positions(
                    pipeline.query_hydrator_list(),
                    q,
                ).len()
                &&& o.fetches.len() == enabled_positions(pipeline.source_list(), full).len()
                &&& self.query == full
                &&& self.removed@.len() == 0
                &&& self.candidates@ == collected(o.fetches)
                &&& self.positions@ == enabled_positions(pipeline.hydrator_list(), full)
                &&& forall|i: int|
                    0 <= i < self.positions@.len() ==> #[trigger] self.positions@[i]
                        < pipeline.hydrator_list().len()
            },
            Some(PipelineStage::Filter) => {
                &&& self.through_hydration(pipeline)
                &&& o.scorings.len() == 0
                &&& o.post_hydrations.len() == 0
                &&& o.post_filterings.len() == 0
                &&& self.candidates@ == filtered_after(o).0
                &&& self.removed@ == kept_out
                &&& self.positions@ == enabled_positions(pipeline.filter_list(), full)
                &&& self.done == o.filterings.len()
                &&& self.done < self.positions@.len()
            },
            Some(PipelineStage::Scorer) => {
                &&& self.through_filters(pipeline)
                &&& o.post_hydrations.len() == 0
                &&& o.post_filterings.len() == 0
                &&& self.candidates@ == scored_after(pipeline, q, o)
                &&& self.removed@ == kept_out
                &&& self.positions@ == enabled_positions(pipeline.scorer_list(), full)
                &&& forall|i: int|
                    0 <= i < self.positions@.len() ==> #[trigger] self.positions@[i]
                        < pipeline.scorer_list().len()
                &&& self.done == o.scorings.len()
                &&& self.done < self.positions@.len()
            },
            Some(PipelineStage::PostSelectionHydrator) => {
                &&& self.through_scorers(pipeline)
                &&& o.post_hydrations.len() == 0
                &&& o.post_filterings.len() == 0
                &&& self.candidates@ == selected_after(pipeline, q, o)
                &&& self.removed@ == kept_out
                &&& self.positions@ == enabled_positions(
                    pipeline.post_selection_hydrator_list(),
                    full,
                )
                &&& forall|i: int|
                    0 <= i < self.positions@.len() ==> #[trigger] self.positions@[i]
                        < pipeline.post_selection_hydrator_list().len()
            },
            Some(PipelineStage::PostSelectionFilter) => {
                &&& self.through_post_hydration(pipeline)
                &&& self.candidates@ == post_filtered_after(pipeline, q, o).0
                &&& self.removed@ == kept_out + post_filtered_after(pipeline, q, o).1
                &&& self.positions@ == enabled_positions(
                    pipeline.post_selection_filter_list(),
                    full,
                )
                &&& self.done == o.post_filterings.len()
                &&& self.done < self.positions@.len()
            },
            None => {
                &&& self.through_post_hydration(pipeline)
                &&& is_complete(pipeline, q, o)
                &&& self.candidates@ == post_filtered_after(pipeline, q, o).0
                &&& self.removed@ == kept_out + post_filtered_after(pipeline, q, o).1
            },
        }
    }

    spec fn through_hydration<P: CandidatePipeline<Q, C>>(&self, pipeline: P) -> bool {
        let o = self.outcomes@;
        let q = self.start@;
        let full = query_after(pipeline, q, o);
        &&& o.query_hydrations.len() == enabled_positions(pipeline.query_hydrator_list(), q).len()
        &&& o.fetches.len() == enabled_positions(pipeline.source_list(), full).len()
        &&& o.hydrations.len() == enabled_positions(pipeline.hydrator_list(), full).len()
        &&& self.query == full
        &&& self.retrieved@ == retrieved_after(pipeline, q, o)
        &&& are_copies(o.handed_on, self.retrieved@)
    }

    spec fn through_filters<P: CandidatePipeline<Q, C>>(&self, pipeline: P) -> bool {
        &&& self.through_hydration(pipeline)
        &&& self.outcomes@.filterings.len() == enabled_positions(
            pipeline.filter_list(),
            self.query,
        ).len()
    }

    spec fn through_scorers<P: CandidatePipeline<Q, C>>(&self, pipeline: P) -> bool {
        &&& self.through_filters(pipeline)
        &&& self.outcomes@.scorings.len() == enabled_positions(
            pipeline.scorer_list(),
            self.query,
        ).len()
    }

    spec fn through_post_hydration<P: CandidatePipeline<Q, C>>(&self, pipeline: P) -> bool {
        &&& self.through_scorers(pipeline)
        &&& self.outcomes@.post_hydrations.len() == enabled_positions(
            pipeline.post_selection_hydrator_list(),
            self.query,
        ).len()
    }

    /// The run has the query, the candidates and the components to work that what
    /// was returned so far leads to.
    pub open spec fn is_at<P: CandidatePipeline<Q, C>>(
        &self,
        pipeline: P,
        stage: Option<PipelineStage>,
    ) -> bool {
        &&& self.current_stage() == stage
        &&& self.query_now() == query_after(pipeline, self.start_query(), self.so_far())
        &&& self.candidates_now() == candidates_at(
            pipeline,
            self.start_query(),
            self.so_far(),
            stage,
        )
        &&& self.awaited() == awaited_at(pipeline, self.start_query(), self.so_far(), stage)
    }

    proof fn lemma_is_at<P: CandidatePipeline<Q, C>>(&self, pipeline: P)
        requires
            self.inv(pipeline),
        ensures
            self.is_at(pipeline, self.stage),
    {
        assert(self.candidates@ =~= candidates_at(
            pipeline,
            self.start@,
            self.outcomes@,
            self.stage,
        ));
    }

    /// `outcome` is what the components that were to work can return.
    pub open spec fn awaits(&self, outcome: StageOutcome<Q, C>) -> bool {
        match self.current_stage() {
            Some(PipelineStage::QueryHydrator) => outcome matches StageOutcome::Queries(results)
                && results@.len() == self.awaited().len(),
            Some(PipelineStage::Source) | Some(PipelineStage::Hydrator) | Some(
                PipelineStage::PostSelectionHydrator,
            ) => outcome matches StageOutcome::Candidates(results) && results@.len()
                == self.awaited().len(),
            Some(PipelineStage::Filter) | Some(
                PipelineStage::PostSelectionFilter,
            ) => outcome is Filtered,
            Some(PipelineStage::Scorer) => outcome is Scored,
            None => false,
        }
    }

    /// `action` tells the components that are awaited to work.
    pub open spec fn is_next(&self, action: PipelineAction) -> bool {
        match self.current_stage() {
            Some(now) => action matches PipelineAction::Run { stage, positions } && stage == now
                && positions@ == self.awaited(),
            None => action == PipelineAction::Finish,
        }
    }

    /// The query as it is now: what components are given.
    pub fn query(&self) -> (query: &Q)
        ensures
            *query == self.query_now(),
    {
        &self.query
    }

    /// The candidates as they are now: what components are given.
    pub fn candidates(&self) -> (candidates: &Vec<C>)
        ensures
            candidates@ == self.candidates_now(),
    {
        &self.candidates
    }

    /// What is to be done next.
    fn action(&self) -> (action: PipelineAction)
        requires
            self.awaited().len() == 1 ==> (match self.current_stage() {
                Some(PipelineStage::Filter) | Some(PipelineStage::Scorer) | Some(
                    PipelineStage::PostSelectionFilter,
                ) => self.done < self.positions@.len(),
                _ => true,
            }),
        ensures
            self.is_next(action),
    {
        match self.stage {
            None => PipelineAction::Finish,
            Some(stage) => {
                let positions = match stage {
                    PipelineStage::Filter
                    | PipelineStage::Scorer
                    | PipelineStage::PostSelectionFilter => {
                        let mut single: Vec<usize> = Vec::new();
                        single.push(self.positions[self.done]);
                        single
                    },
                    _ => {
                        let all = self.positions.clone();
                        assert(all@ =~= self.positions@);
                        all
                    },
                };
                assert(positions@ =~= self.awaited());
                PipelineAction::Run { stage, positions }
            },
        }
    }

    /// Begins to answer `query`.
    pub fn begin<P: CandidatePipeline<Q, C>>(pipeline: &P, query: Q) -> (begun: (
        PipelineRun<Q, C>,
        PipelineAction,
    ))
        ensures
            begun.0.inv(*pipeline),
            begun.0.start_query() == query,
            begun.0.so_far() == no_outcomes::<Q, C>(),
            begun.0.is_at(*pipeline, Some(PipelineStage::QueryHydrator)),
            begun.0.is_next(begun.1),
    {
        let positions = find_enabled(pipeline.query_hydrators(), &query);
        let ghost start = query;
        let run = PipelineRun {
            stage: Some(PipelineStage::QueryHydrator),
            query,
            candidates: Vec::new(),
            retrieved: Vec::new(),
            removed: Vec::new(),
            positions,
            done: 0,
            start: Ghost(start),
            outcomes: Ghost(no_outcomes()),
        };
        proof {
            run.lemma_is_at(*pipeline);
        }
        let action = run.action();
        (run, action)
    }

    fn enter_filters<P: CandidatePipeline<Q, C>>(&mut self, pipeline: &P)
        requires
            old(self).through_hydration(*pipeline),
            old(self).outcomes@.filterings.len() == 0,
            old(self).outcomes@.scorings.len() == 0,
            old(self).outcomes@.post_hydrations.len() == 0,
            old(self).outcomes@.post_filterings.len() == 0,
            old(self).candidates@ == old(self).outcomes@.handed_on,
            old(self).removed@.len() == 0,
        ensures
            final(self).inv(*pipeline),
            final(self).start@ == old(self).start@,
            final(self).outcomes@ == old(self).outcomes@,
            final(self).stage == stage_after(
                *pipeline,
                final(self).start@,
                final(self).outcomes@,
                PipelineStage::Hydrator,
            ),
    {
        self.positions = find_enabled(pipeline.filters(), &self.query);
        self.done = 0;
        assert(self.removed@ =~= Seq::empty());
        if self.positions.len() > 0 {
            self.stage = Some(PipelineStage::Filter);
        } else {
            self.enter_scorers(pipeline);
        }
    }

    fn enter_scorers<P: CandidatePipeline<Q, C>>(&mut self, pipeline: &P)
        requires
            old(self).through_filters(*pipeline),
            old(self).outcomes@.scorings.len() == 0,
            old(self).outcomes@.post_hydrations.len() == 0,
            old(self).outcomes@.post_filterings.len() == 0,
            old(self).candidates@ == filtered_after(old(self).outcomes@).0,
            old(self).removed@ == filtered_after(old(self).outcomes@).1,
        ensures
            final(self).inv(*pipeline),
            final(self).start@ == old(self).start@,
            final(self).outcomes@ == old(self).outcomes@,
            final(self).stage == stage_after(
                *pipeline,
                final(self).start@,
                final(self).outcomes@,
                PipelineStage::Filter,
            ),
    {
        self.positions = find_enabled(pipeline.scorers(), &self.query);
        self.done = 0;
        if self.positions.len() > 0 {
            self.stage = Some(PipelineStage::Scorer);
        } else {
            self.enter_selection(pipeline);
        }
    }

    fn enter_selection<P: CandidatePipeline<Q, C>>(&mut self, pipeline: &P)
        requires
            old(self).through_scorers(*pipeline),
            old(self).outcomes@.post_hydrations.len() == 0,
            old(self).outcomes@.post_filterings.len() == 0,
            old(self).candidates@ == scored_after(
                *pipeline,
                old(self).start@,
                old(self).outcomes@,
            ),
            old(self).removed@ == filtered_after(old(self).outcomes@).1,
        ensures
            final(self).inv(*pipeline),
            final(self).start@ == old(self).start@,
            final(self).outcomes@ == old(self).outcomes@,
            final(self).stage == stage_after(
                *pipeline,
                final(self).start@,
                final(self).outcomes@,
                PipelineStage::Scorer,
            ),
    {
        if pipeline.selector().enable(&self.query) {
            let mut candidates: Vec<C> = Vec::new();
            std::mem::swap(&mut candidates, &mut self.candidates);
            self.candidates = pipeline.selector().select(&self.query, candidates);
        }
        self.positions = find_enabled(pipeline.post_selection_hydrators(), &self.query);
        self.stage = Some(PipelineStage::PostSelectionHydrator);
    }

    fn enter_post_filters<P: CandidatePipeline<Q, C>>(&mut self, pipeline: &P)
        requires
            old(self).through_post_hydration(*pipeline),
            old(self).outcomes@.post_filterings.len() == 0,
            old(self).candidates@ == post_hydrated_after(
                *pipeline,
                old(self).start@,
                old(self).outcomes@,
            ),
            old(self).removed@ == filtered_after(old(self).outcomes@).1,
        ensures
            final(self).inv(*pipeline),
            final(self).start@ == old(self).start@,
            final(self).outcomes@ == old(self).outcomes@,
            final(self).stage == stage_after(
                *pipeline,
                final(self).start@,
                final(self).outcomes@,
                PipelineStage::PostSelectionHydrator,
            ),
    {
        self.positions = find_enabled(pipeline.post_selection_filters(), &self.query);
        self.done = 0;
        proof {
            let gone = post_filtered_after(*pipeline, self.start@, self.outcomes@).1;
            assert(self.removed@ + gone =~= self.removed@);
        }
        if self.positions.len() > 0 {
            self.stage = Some(PipelineStage::PostSelectionFilter);
        } else {
            self.stage = None;
        }
    }

    fn take_candidates(&mut self) -> (taken: Vec<C>)
        ensures
            taken@ == old(self).candidates@,
            *final(self) == (PipelineRun { candidates: final(self).candidates, ..*old(self) }),
    {
        let mut taken: Vec<C> = Vec::new();
        std::mem::swap(&mut taken, &mut self.candidates);
        taken
    }

    fn query_hydrated<P: CandidatePipeline<Q, C>>(
        self,
        pipeline: &P,
        results: Vec<Result<Q, String>>,
    ) -> (next: Self)
        requires
            self.inv(*pipeline),
            self.stage == Some(PipelineStage::QueryHydrator),
            results@.len() == self.positions@.len(),
        ensures
            next.inv(*pipeline),
            next.start@ == self.start@,
            is_recorded(
                *pipeline,
                next.start@,
                next.outcomes@,
                self.outcomes@,
                PipelineStage::QueryHydrator,
                StageOutcome::Queries(results),
            ),
            next.stage == stage_after(
                *pipeline,
                next.start@,
                next.outcomes@,
                PipelineStage::QueryHydrator,
            ),
    {
        let PipelineRun {
            query,
            candidates,
            retrieved,
            removed,
            positions,
            done,
            start,
            outcomes,
            ..
        } = self;
        let ghost given = results@;
        let query = hydrate_query(pipeline.query_hydrators(), &positions, query, results);
        let positions = find_enabled(pipeline.sources(), &query);
        PipelineRun {
            stage: Some(PipelineStage::Source),
            query,
            candidates,
            retrieved,
            removed,
            positions,
            done,
            start,
            outcomes: Ghost(Outcomes { query_hydrations: given, ..outcomes@ }),
        }
    }

    fn fetched<P: CandidatePipeline<Q, C>>(
        &mut self,
        pipeline: &P,
        results: Vec<Result<Vec<C>, String>>,
    )
        requires
            old(self).inv(*pipeline),
            old(self).stage == Some(PipelineStage::Source),
            results@.len() == old(self).positions@.len(),
        ensures
            final(self).inv(*pipeline),
            final(self).start@ == old(self).start@,
            is_recorded(
                *pipeline,
                final(self).start@,
                final(self).outcomes@,
                old(self).outcomes@,
                PipelineStage::Source,
                StageOutcome::Candidates(results),
            ),
            final(self).stage == stage_after(
                *pipeline,
                final(self).start@,
                final(self).outcomes@,
                PipelineStage::Source,
            ),
    {
        let ghost given = results@;
        self.candidates = fetch_candidates(results);
        self.outcomes = Ghost(Outcomes { fetches: given, ..self.outcomes@ });
        self.positions = find_enabled(pipeline.hydrators(), &self.query);
        self.stage = Some(PipelineStage::Hydrator);
    }

    fn candidates_hydrated<P: CandidatePipeline<Q, C>>(
        &mut self,
        pipeline: &P,
        results: Vec<Result<Vec<C>, String>>,
    )
        requires
            old(self).inv(*pipeline),
            old(self).stage == Some(PipelineStage::Hydrator),
            results@.len() == old(self).positions@.len(),
        ensures
            final(self).inv(*pipeline),
            final(self).start@ == old(self).start@,
            is_recorded(
                *pipeline,
                final(self).start@,
                final(self).outcomes@,
                old(self).outcomes@,
                PipelineStage::Hydrator,
                StageOutcome::Candidates(results),
            ),
            final(self).stage == stage_after(
                *pipeline,
                final(self).start@,
                final(self).outcomes@,
                PipelineStage::Hydrator,
            ),
    {
        let ghost given = results@;
        let candidates = self.take_candidates();
        let updated = run_hydrators(pipeline.hydrators(), &self.positions, candidates, results);
        self.candidates = duplicate_all(&updated);
        self.retrieved = updated;
        self.outcomes = Ghost(
            Outcomes { hydrations: given, handed_on: self.candidates@, ..self.outcomes@ },
        );
        self.enter_filters(pipeline);
    }

    fn filter_returned<P: CandidatePipeline<Q, C>>(
        &mut self,
        pipeline: &P,
        result: Result<FilterResult<C>, String>,
    )
        requires
            old(self).inv(*pipeline),
            old(self).stage == Some(PipelineStage::Filter),
        ensures
            final(self).inv(*pipeline),
            final(self).start@ == old(self).start@,
            is_recorded(
                *pipeline,
                final(self).start@,
                final(self).outcomes@,
                old(self).outcomes@,
                PipelineStage::Filter,
                StageOutcome::Filtered(result),
            ),
            final(self).stage == stage_after(
                *pipeline,
                final(self).start@,
                final(self).outcomes@,
                PipelineStage::Filter,
            ),
    {
        let ghost before = self.outcomes@;
        self.outcomes = Ghost(
            Outcomes { filterings: self.outcomes@.filterings.push(result), ..self.outcomes@ },
        );
        assert(self.outcomes@.filterings.drop_last() =~= before.filterings);
        match result {
            Ok(parts) => {
                let FilterResult { kept, mut removed } = parts;
                self.candidates = kept;
                self.removed.append(&mut removed);
            },
            Err(_) => {},
        }
        let count = self.positions.len();
        self.done = self.done + 1;
        if self.done == count {
            self.enter_scorers(pipeline);
        }
    }

    fn scorer_returned<P: CandidatePipeline<Q, C>>(
        &mut self,
        pipeline: &P,
        result: Result<Vec<C>, String>,
    )
        requires
            old(self).inv(*pipeline),
            old(self).stage == Some(PipelineStage::Scorer),
        ensures
            final(self).inv(*pipeline),
            final(self).start@ == old(self).start@,
            is_recorded(
                *pipeline,
                final(self).start@,
                final(self).outcomes@,
                old(self).outcomes@,
                PipelineStage::Scorer,
                StageOutcome::Scored(result),
            ),
            final(self).stage == stage_after(
                *pipeline,
                final(self).start@,
                final(self).outcomes@,
                PipelineStage::Scorer,
            ),
    {
        let ghost before = self.outcomes@;
        proof {
            law_scorers_keep_the_number(
                pipeline.scorer_list(),
                self.positions@,
                filtered_after(before).0,
                before.scorings,
            );
        }
        self.outcomes = Ghost(
            Outcomes { scorings: self.outcomes@.scorings.push(result), ..self.outcomes@ },
        );
        assert(self.outcomes@.scorings.drop_last() =~= before.scorings);
        match result {
            Ok(updates) => {
                if updates.len() == self.candidates.len() {
                    let mut candidates = self.take_candidates();
                    pipeline.scorers()[self.positions[self.done]].update_all(
                        &mut candidates,
                        updates,
                    );
                    self.candidates = candidates;
                }
            },
            Err(_) => {},
        }
        let count = self.positions.len();
        self.done = self.done + 1;
        if self.done == count {
            self.enter_selection(pipeline);
        }
    }

    fn selection_hydrated<P: CandidatePipeline<Q, C>>(
        &mut self,
        pipeline: &P,
        results: Vec<Result<Vec<C>, String>>,
    )
        requires
            old(self).inv(*pipeline),
            old(self).stage == Some(PipelineStage::PostSelectionHydrator),
            results@.len() == old(self).positions@.len(),
        ensures
            final(self).inv(*pipeline),
            final(self).start@ == old(self).start@,
            is_recorded(
                *pipeline,
                final(self).start@,
                final(self).outcomes@,
                old(self).outcomes@,
                PipelineStage::PostSelectionHydrator,
                StageOutcome::Candidates(results),
            ),
            final(self).stage == stage_after(
                *pipeline,
                final(self).start@,
                final(self).outcomes@,
                PipelineStage::PostSelectionHydrator,
            ),
    {
        let ghost given = results@;
        let candidates = self.take_candidates();
        self.candidates = run_hydrators(
            pipeline.post_selection_hydrators(),
            &self.positions,
            candidates,
            results,
        );
        self.outcomes = Ghost(Outcomes { post_hydrations: given, ..self.outcomes@ });
        self.enter_post_filters(pipeline);
    }

    fn post_filter_returned<P: CandidatePipeline<Q, C>>(
        &mut self,
        pipeline: &P,
        result: Result<FilterResult<C>, String>,
    )
        requires
            old(self).inv(*pipeline),
            old(self).stage == Some(PipelineStage::PostSelectionFilter),
        ensures
            final(self).inv(*pipeline),
            final(self).start@ == old(self).start@,
            is_recorded(
                *pipeline,
                final(self).start@,
                final(self).outcomes@,
                old(self).outcomes@,
                PipelineStage::PostSelectionFilter,
                StageOutcome::Filtered(result),
            ),
            final(self).stage == stage_after(
                *pipeline,
                final(self).start@,
                final(self).outcomes@,
                PipelineStage::PostSelectionFilter,
            ),
    {
        let ghost before = self.outcomes@;
        let ghost kept_out = filtered_after(before).1;
        let ghost gone = post_filtered_after(*pipeline, self.start@, before).1;
        self.outcomes = Ghost(
            Outcomes {
                post_filterings: self.outcomes@.post_filterings.push(result),
                ..self.outcomes@
            },
        );
        assert(self.outcomes@.post_filterings.drop_last() =~= before.post_filterings);
        match result {
            Ok(parts) => {
                let FilterResult { kept, mut removed } = parts;
                assert((kept_out + gone) + removed@ =~= kept_out + (gone + removed@));
                self.candidates = kept;
                self.removed.append(&mut removed);
            },
            Err(_) => {},
        }
        let count = self.positions.len();
        self.done = self.done + 1;
        if self.done == count {
            self.stage = None;
        }
    }

    /// Takes in what the components returned that were to work, and goes on.
    pub fn step<P: CandidatePipeline<Q, C>>(
        self,
        pipeline: &P,
        outcome: StageOutcome<Q, C>,
    ) -> (next: (PipelineRun<Q, C>, PipelineAction))
        requires
            self.inv(*pipeline),
            self.awaits(outcome),
        ensures
            next.0.inv(*pipeline),
            next.0.start_query() == self.start_query(),
            is_recorded(
                *pipeline,
                self.start_query(),
                next.0.so_far(),
                self.so_far(),
                self.current_stage()->0,
                outcome,
            ),
            next.0.is_at(
                *pipeline,
                stage_after(
                    *pipeline,
                    self.start_query(),
                    next.0.so_far(),
                    self.current_stage()->0,
                ),
            ),
            next.0.is_next(next.1),
    {
        let mut run = self;
        match (run.stage, outcome) {
            (Some(PipelineStage::QueryHydrator), StageOutcome::Queries(results)) => {
                run = run.query_hydrated(pipeline, results);
            },
            (Some(PipelineStage::Source), StageOutcome::Candidates(results)) => {
                run.fetched(pipeline, results);
            },
            (Some(PipelineStage::Hydrator), StageOutcome::Candidates(results)) => {
                run.candidates_hydrated(pipeline, results);
            },
            (Some(PipelineStage::Filter), StageOutcome::Filtered(result)) => {
                run.filter_returned(pipeline, result);
            },
            (Some(PipelineStage::Scorer), StageOutcome::Scored(result)) => {
                run.scorer_returned(pipeline, result);
            },
            (Some(PipelineStage::PostSelectionHydrator), StageOutcome::Candidates(results)) => {
                run.selection_hydrated(pipeline, results);
            },
            (Some(PipelineStage::PostSelectionFilter), StageOutcome::Filtered(result)) => {
                run.post_filter_returned(pipeline, result);
            },
            _ => {},
        }
        proof {
            run.lemma_is_at(*pipeline);
        }
        let action = run.action();
        (run, action)
    }

    /// The result of a request that is through, what the side effects are given,
    /// and which of them take part.
    pub fn finish<P: CandidatePipeline<Q, C>>(self, pipeline: &P) -> (finished: (
        PipelineResult<Q, C>,
        SideEffectInput<Q, C>,
        Vec<usize>,
    ))
        requires
            self.inv(*pipeline),
            self.current_stage() is None,
        ensures
            is_complete(*pipeline, self.start_query(), self.so_far()),
            is_execution(finished.0, *pipeline, self.start_query(), self.so_far()),
            finished.1.query == finished.0.query,
            are_copies(finished.1.selected_candidates@, finished.0.selected_candidates@),
            finished.2@ == enabled_positions(pipeline.side_effect_list(), *finished.0.query),
    {
        let PipelineRun { query, candidates, retrieved, removed, .. } = self;
        let mut selected_candidates = candidates;
        let ghost all = selected_candidates@;
        selected_candidates.truncate(pipeline.result_size());
        assert(selected_candidates@ =~= first(all, pipeline.max_results() as nat));
        let side_effects = find_enabled(pipeline.side_effects(), &query);
        let query = Arc::new(query);
        let input = SideEffectInput {
            query: query.clone(),
            selected_candidates: duplicate_all(&selected_candidates),
        };
        let result = PipelineResult {
            retrieved_candidates: retrieved,
            filtered_candidates: removed,
            selected_candidates,
            query,
        };
        (result, input, side_effects)
    }
}

} // verus!

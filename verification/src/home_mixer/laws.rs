//! What holds of the answers of the feed.

use vstd::prelude::*;

use crate::candidate_pipeline::candidate_pipeline::{filtered, CandidatePipeline, PipelineResult};
use crate::candidate_pipeline::component::enabled_positions;
use crate::candidate_pipeline::filter::{selected, FilterResult};
use crate::candidate_pipeline::hydrator::Hydrator;
use crate::candidate_pipeline::query_hydrator::QueryHydrator;
use crate::candidate_pipeline::run::{
    is_complete, is_execution, post_hydrated_after, query_after, Outcomes,
};
use crate::candidate_pipeline::scorer::Scorer;
use crate::candidate_pipeline::selector::Selector;
use crate::candidate_pipeline::side_effect::SideEffect;
use crate::candidate_pipeline::source::Source;
use crate::home_mixer::candidate::PostCandidate;
use crate::home_mixer::filters::common::kept_where;
use crate::home_mixer::filters::dedup_conversation_filter::{
    deduplicated, is_unique, DedupConversationFilter,
};
use crate::home_mixer::filters::laws::law_answers_are_visible_and_distinct;
use crate::home_mixer::filters::vf_filter::{is_visible, must_drop, VFFilter};
use crate::home_mixer::phoenix_candidate_pipeline::{
    parted, PhoenixCandidatePipeline, PhoenixEvidence, PhoenixFilter, PhoenixHydrator,
};
use crate::home_mixer::query::ScoredPostsQuery;

verus! {

/// The components that fill in candidates at the same time keep out of each
/// other's way: whichever is taken in first, the outcome is the same.
pub proof fn law_hydrators_keep_out_of_each_others_way(
    one: PhoenixHydrator,
    other: PhoenixHydrator,
    candidate: PostCandidate,
    by_one: PostCandidate,
    by_other: PostCandidate,
)
    requires
        one != other,
    ensures
        other.updated(one.updated(candidate, by_one), by_other) == one.updated(
            other.updated(candidate, by_other),
            by_one,
        ),
{
}

/// Filling a candidate in changes neither which post it shows nor whose it is.
pub proof fn law_hydrators_keep_post_and_author(
    hydrator: PhoenixHydrator,
    candidate: PostCandidate,
    hydrated: PostCandidate,
)
    ensures
        hydrator.updated(candidate, hydrated).tweet_id == candidate.tweet_id,
        hydrator.updated(candidate, hydrated).author_id == candidate.author_id,
        hydrator.updated(candidate, hydrated).score == candidate.score,
        hydrator.updated(candidate, hydrated).ancestors == candidate.ancestors,
{
}

/// What the filters of the feed make of the candidates that they are given.
pub open spec fn is_filtering(
    filter: PhoenixFilter,
    query: ScoredPostsQuery,
    candidates: Seq<PostCandidate>,
    evidence: PhoenixEvidence,
    result: Result<FilterResult<PostCandidate>, String>,
) -> bool {
    result matches Ok(parts) && (parts.kept@, parts.removed@) == parted(
        filter,
        query,
        candidates,
        evidence,
    )
}

/// Every post of an answer may be shown, and no two belong to the same
/// conversation.
pub proof fn law_answers_show_visible_posts_of_distinct_conversations<
    QH: QueryHydrator<ScoredPostsQuery>,
    S: Source<ScoredPostsQuery, PostCandidate>,
    Sc: Scorer<ScoredPostsQuery, PostCandidate>,
    Sel: Selector<ScoredPostsQuery, PostCandidate>,
    SE: SideEffect<ScoredPostsQuery, PostCandidate>,
>(
    pipeline: PhoenixCandidatePipeline<QH, S, Sc, Sel, SE>,
    query: ScoredPostsQuery,
    outcomes: Outcomes<ScoredPostsQuery, PostCandidate>,
    evidence: PhoenixEvidence,
    result: PipelineResult<ScoredPostsQuery, PostCandidate>,
)
    requires
        pipeline.post_selection_filter_list() == seq![
            PhoenixFilter::Visibility(VFFilter),
            PhoenixFilter::DedupConversation(DedupConversationFilter),
        ],
        is_complete(pipeline, query, outcomes),
        is_execution(result, pipeline, query, outcomes),
        forall|i: int|
            0 <= i < outcomes.post_filterings.len() ==> is_filtering(
                pipeline.post_selection_filter_list()[i],
                query_after(pipeline, query, outcomes),
                filtered(
                    post_hydrated_after(pipeline, query, outcomes),
                    outcomes.post_filterings.take(i),
                ).0,
                evidence,
                #[trigger] outcomes.post_filterings[i],
            ),
    ensures
        forall|i: int|
            0 <= i < result.selected_candidates@.len() ==> !must_drop(
                (#[trigger] result.selected_candidates@[i]).visibility_reason,
            ),
        is_unique(result.selected_candidates@),
{
    let filters = pipeline.post_selection_filter_list();
    let full = query_after(pipeline, query, outcomes);
    let given = post_hydrated_after(pipeline, query, outcomes);
    let all = outcomes.post_filterings;
    assert(enabled_positions(filters, full).len() == 2) by {
        reveal_with_fuel(enabled_positions, 3);
    }
    let visible = filtered(given, all.take(1)).0;
    let keep = |c: PostCandidate| is_visible(c);
    assert(all.take(0) =~= Seq::empty());
    assert(is_filtering(filters[0], full, given, evidence, all[0]));
    assert(all.take(1).drop_last() =~= all.take(0));
    assert(all.take(1).last() == all[0]);
    assert(visible == selected(
        given,
        kept_where(given, keep),
        true,
    ));
    assert(is_filtering(filters[1], full, visible, evidence, all[1]));
    assert(all.drop_last() =~= all.take(1));
    let kept = deduplicated(visible).0;
    assert(filtered(given, all).0 == kept);
    let answer = result.selected_candidates@;
    assert(answer.len() <= kept.len());
    assert(forall|i: int| 0 <= i < answer.len() ==> #[trigger] answer[i] == kept[i]);
    assert forall|i: int| 0 <= i < answer.len() implies !must_drop(
        (#[trigger] answer[i]).visibility_reason,
    ) by {
        law_answers_are_visible_and_distinct(given, i);
    }
    if kept.len() > 0 {
        law_answers_are_visible_and_distinct(given, 0);
    }
}

} // verus!

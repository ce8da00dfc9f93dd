//! Where the fields of candidates, of queries and of answers come from.

use vstd::prelude::*;

use crate::candidate_pipeline::candidate_pipeline::{
    collected, hydrated, CandidatePipeline, HasRequestId, PipelineResult,
};
use crate::candidate_pipeline::component::{enabled_positions, Component, Duplicable};
use crate::candidate_pipeline::hydrator::Hydrator;
use crate::candidate_pipeline::query_hydrator::QueryHydrator;
use crate::candidate_pipeline::run::{is_complete, is_execution, query_after, Outcomes};
use crate::candidate_pipeline::scorer::Scorer;
use crate::candidate_pipeline::selector::Selector;
use crate::candidate_pipeline::side_effect::SideEffect;
use crate::candidate_pipeline::source::Source;
use crate::home_mixer::candidate::{screen_names, PostCandidate};
use crate::home_mixer::candidate_features::{
    GizmoduckUserResult, MediaEntities, MediaEntity, PureCoreData,
};
use crate::home_mixer::candidate_hydrators::common::{answer_for, ids_of};
use crate::home_mixer::candidate_hydrators::core_data_candidate_hydrator::{
    holds_core_data, CoreDataCandidateHydrator,
};
use crate::home_mixer::candidate_hydrators::gizmoduck_hydrator::{
    holds_users, repeated_user, users_of, GizmoduckCandidateHydrator,
};
use crate::home_mixer::candidate_hydrators::in_network_candidate_hydrator::{
    followed, holds_network, is_in_network, InNetworkCandidateHydrator,
};
use crate::home_mixer::candidate_hydrators::subscription_hydrator::{
    holds_subscription, SubscriptionHydrator,
};
use crate::home_mixer::candidate_hydrators::vf_candidate_hydrator::{
    holds_reason, is_request, network_id, outside_id, reason_for, VFCandidateHydrator,
    VisibilityRequest,
};
use crate::home_mixer::candidate_hydrators::video_duration_candidate_hydrator::{
    first_duration, holds_duration, known_duration, VideoDurationCandidateHydrator,
};
use crate::home_mixer::phoenix_candidate_pipeline::{PhoenixCandidatePipeline, PhoenixHydrator};
use crate::home_mixer::query::ScoredPostsQuery;
use crate::home_mixer::query_features::UserFeatures;
use crate::home_mixer::server::{is_answer_for, ScoredPost};
use crate::home_mixer::visibility::{FilteredReason, SafetyLevel};
use crate::seqs::{first_of_each, lemma_filter_map_add, lemma_first_of_each};
use crate::status::{Status, StatusView};
use crate::text::{decimal_text, is_white_space};

verus! {

// What each hydrator takes in.

/// Each field of a candidate is filled in by one hydrator at most, and no hydrator
/// touches another field. Every hydrator takes part in every request.
pub proof fn law_hydrators_fill_in_their_fields(
    hydrator: PhoenixHydrator,
    query: ScoredPostsQuery,
    candidate: PostCandidate,
    update: PostCandidate,
)
    ensures
        hydrator.is_enabled(query),
        InNetworkCandidateHydrator.is_enabled(query),
        CoreDataCandidateHydrator.is_enabled(query),
        VideoDurationCandidateHydrator.is_enabled(query),
        SubscriptionHydrator.is_enabled(query),
        GizmoduckCandidateHydrator.is_enabled(query),
        VFCandidateHydrator.is_enabled(query),
        ({
            let updated = hydrator.updated(candidate, update);
            &&& updated.in_network == if hydrator is InNetwork {
                update.in_network
            } else {
                candidate.in_network
            }
            &&& updated.tweet_text == if hydrator is CoreData {
                update.tweet_text
            } else {
                candidate.tweet_text
            }
            &&& updated.retweeted_user_id == if hydrator is CoreData {
                update.retweeted_user_id
            } else {
                candidate.retweeted_user_id
            }
            &&& updated.retweeted_tweet_id == if hydrator is CoreData {
                update.retweeted_tweet_id
            } else {
                candidate.retweeted_tweet_id
            }
            &&& updated.in_reply_to_tweet_id == if hydrator is CoreData {
                update.in_reply_to_tweet_id
            } else {
                candidate.in_reply_to_tweet_id
            }
            &&& updated.video_duration_ms == if hydrator is VideoDuration {
                update.video_duration_ms
            } else {
                candidate.video_duration_ms
            }
            &&& updated.subscription_author_id == if hydrator is Subscription {
                update.subscription_author_id
            } else {
                candidate.subscription_author_id
            }
            &&& updated.author_followers_count == if hydrator is Gizmoduck {
                update.author_followers_count
            } else {
                candidate.author_followers_count
            }
            &&& updated.author_screen_name == if hydrator is Gizmoduck {
                update.author_screen_name
            } else {
                candidate.author_screen_name
            }
            &&& updated.retweeted_screen_name == if hydrator is Gizmoduck {
                update.retweeted_screen_name
            } else {
                candidate.retweeted_screen_name
            }
            &&& updated.visibility_reason == if hydrator is Visibility {
                update.visibility_reason
            } else {
                candidate.visibility_reason
            }
            &&& updated.tweet_id == candidate.tweet_id
            &&& updated.author_id == candidate.author_id
            &&& updated.phoenix_scores == candidate.phoenix_scores
            &&& updated.prediction_request_id == candidate.prediction_request_id
            &&& updated.last_scored_at_ms == candidate.last_scored_at_ms
            &&& updated.weighted_score == candidate.weighted_score
            &&& updated.score == candidate.score
            &&& updated.served_type == candidate.served_type
            &&& updated.ancestors == candidate.ancestors
        }),
{
}

/// After the hydrators of the feed have returned, whether a candidate is from the
/// network is what the first of them says, its text and what it repeats or answers
/// what the second says, and so on; where one failed, or returned another number of
/// candidates, its fields stay as they were.
pub proof fn law_each_field_comes_from_its_hydrator(
    hydrators: Seq<PhoenixHydrator>,
    query: ScoredPostsQuery,
    candidates: Seq<PostCandidate>,
    results: Seq<Result<Vec<PostCandidate>, String>>,
    i: int,
)
    requires
        hydrators == seq![
            PhoenixHydrator::InNetwork(InNetworkCandidateHydrator),
            PhoenixHydrator::CoreData(CoreDataCandidateHydrator),
            PhoenixHydrator::VideoDuration(VideoDurationCandidateHydrator),
            PhoenixHydrator::Subscription(SubscriptionHydrator),
            PhoenixHydrator::Gizmoduck(GizmoduckCandidateHydrator),
        ],
        results.len() == 5,
        0 <= i < candidates.len(),
    ensures
        ({
            let all = hydrated(hydrators, enabled_positions(hydrators, query), candidates, results);
            let after = all[i];
            let before = candidates[i];
            let succeeded = |k: int|
                results[k] is Ok && results[k]->Ok_0@.len() == candidates.len();
            let said = |k: int| results[k]->Ok_0@[i];
            &&& all.len() == candidates.len()
            &&& after.in_network == if succeeded(0) {
                said(0).in_network
            } else {
                before.in_network
            }
            &&& after.tweet_text == if succeeded(1) {
                said(1).tweet_text
            } else {
                before.tweet_text
            }
            &&& after.retweeted_user_id == if succeeded(1) {
                said(1).retweeted_user_id
            } else {
                before.retweeted_user_id
            }
            &&& after.retweeted_tweet_id == if succeeded(1) {
                said(1).retweeted_tweet_id
            } else {
                before.retweeted_tweet_id
            }
            &&& after.in_reply_to_tweet_id == if succeeded(1) {
                said(1).in_reply_to_tweet_id
            } else {
                before.in_reply_to_tweet_id
            }
            &&& after.video_duration_ms == if succeeded(2) {
                said(2).video_duration_ms
            } else {
                before.video_duration_ms
            }
            &&& after.subscription_author_id == if succeeded(3) {
                said(3).subscription_author_id
            } else {
                before.subscription_author_id
            }
            &&& after.author_followers_count == if succeeded(4) {
                said(4).author_followers_count
            } else {
                before.author_followers_count
            }
            &&& after.author_screen_name == if succeeded(4) {
                said(4).author_screen_name
            } else {
                before.author_screen_name
            }
            &&& after.retweeted_screen_name == if succeeded(4) {
                said(4).retweeted_screen_name
            } else {
                before.retweeted_screen_name
            }
            &&& after.tweet_id == before.tweet_id
            &&& after.author_id == before.author_id
            &&& after.score == before.score
            &&& after.weighted_score == before.weighted_score
            &&& after.phoenix_scores == before.phoenix_scores
            &&& after.ancestors == before.ancestors
            &&& after.served_type == before.served_type
            &&& after.visibility_reason == before.visibility_reason
            &&& after.prediction_request_id == before.prediction_request_id
            &&& after.last_scored_at_ms == before.last_scored_at_ms
        }),
{
    let positions = enabled_positions(hydrators, query);
    let front4 = hydrators.drop_last();
    let front3 = front4.drop_last();
    let front2 = front3.drop_last();
    let front1 = front2.drop_last();
    assert(front1.drop_last() =~= Seq::empty());
    assert(enabled_positions(front1.drop_last(), query) =~= Seq::<usize>::empty());
    assert(enabled_positions(front1, query) =~= seq![0usize]);
    assert(enabled_positions(front2, query) =~= seq![0usize, 1usize]);
    assert(enabled_positions(front3, query) =~= seq![0usize, 1usize, 2usize]);
    assert(enabled_positions(front4, query) =~= seq![0usize, 1usize, 2usize, 3usize]);
    assert(positions =~= seq![0usize, 1usize, 2usize, 3usize, 4usize]);
    lemma_hydrated_in_turn(hydrators, positions, candidates, results, 0, i);
    lemma_hydrated_in_turn(hydrators, positions, candidates, results, 1, i);
    lemma_hydrated_in_turn(hydrators, positions, candidates, results, 2, i);
    lemma_hydrated_in_turn(hydrators, positions, candidates, results, 3, i);
    lemma_hydrated_in_turn(hydrators, positions, candidates, results, 4, i);
    assert(results.take(0) =~= Seq::empty());
    assert(results.take(5) =~= results);
    assert(hydrators[0] is InNetwork);
    assert(hydrators[1] is CoreData);
    assert(hydrators[2] is VideoDuration);
    assert(hydrators[3] is Subscription);
    assert(hydrators[4] is Gizmoduck);
}

/// The candidates that the feed reports as retrieved: those of the sources, in order, with
/// what the hydrators said of each. Whether a candidate is from the network is what the
/// first hydrator said, its text and what it repeats or answers what the second said, and
/// so on; where one failed, or returned another number of candidates, its fields are those
/// that the source brought.
pub proof fn law_retrieved_candidates_carry_what_was_said<
    QH: QueryHydrator<ScoredPostsQuery>,
    S: Source<ScoredPostsQuery, PostCandidate>,
    Sc: Scorer<ScoredPostsQuery, PostCandidate>,
    Sel: Selector<ScoredPostsQuery, PostCandidate>,
    SE: SideEffect<ScoredPostsQuery, PostCandidate>,
>(
    pipeline: PhoenixCandidatePipeline<QH, S, Sc, Sel, SE>,
    query: ScoredPostsQuery,
    outcomes: Outcomes<ScoredPostsQuery, PostCandidate>,
    result: PipelineResult<ScoredPostsQuery, PostCandidate>,
    i: int,
)
    requires
        pipeline.hydrator_list() == seq![
            PhoenixHydrator::InNetwork(InNetworkCandidateHydrator),
            PhoenixHydrator::CoreData(CoreDataCandidateHydrator),
            PhoenixHydrator::VideoDuration(VideoDurationCandidateHydrator),
            PhoenixHydrator::Subscription(SubscriptionHydrator),
            PhoenixHydrator::Gizmoduck(GizmoduckCandidateHydrator),
        ],
        is_complete(pipeline, query, outcomes),
        is_execution(result, pipeline, query, outcomes),
        0 <= i < collected(outcomes.fetches).len(),
    ensures
        ({
            let all = result.retrieved_candidates@;
            let candidates = collected(outcomes.fetches);
            let results = outcomes.hydrations;
            let after = all[i];
            let before = candidates[i];
            let succeeded = |k: int|
                results[k] is Ok && results[k]->Ok_0@.len() == candidates.len();
            let said = |k: int| results[k]->Ok_0@[i];
            &&& all.len() == candidates.len()
            &&& after.in_network == if succeeded(0) {
                said(0).in_network
            } else {
                before.in_network
            }
            &&& after.tweet_text == if succeeded(1) {
                said(1).tweet_text
            } else {
                before.tweet_text
            }
            &&& after.retweeted_user_id == if succeeded(1) {
                said(1).retweeted_user_id
            } else {
                before.retweeted_user_id
            }
            &&& after.retweeted_tweet_id == if succeeded(1) {
                said(1).retweeted_tweet_id
            } else {
                before.retweeted_tweet_id
            }
            &&& after.in_reply_to_tweet_id == if succeeded(1) {
                said(1).in_reply_to_tweet_id
            } else {
                before.in_reply_to_tweet_id
            }
            &&& after.video_duration_ms == if succeeded(2) {
                said(2).video_duration_ms
            } else {
                before.video_duration_ms
            }
            &&& after.subscription_author_id == if succeeded(3) {
                said(3).subscription_author_id
            } else {
                before.subscription_author_id
            }
            &&& after.author_followers_count == if succeeded(4) {
                said(4).author_followers_count
            } else {
                before.author_followers_count
            }
            &&& after.author_screen_name == if succeeded(4) {
                said(4).author_screen_name
            } else {
                before.author_screen_name
            }
            &&& after.retweeted_screen_name == if succeeded(4) {
                said(4).retweeted_screen_name
            } else {
                before.retweeted_screen_name
            }
            &&& after.tweet_id == before.tweet_id
            &&& after.author_id == before.author_id
            &&& after.score == before.score
            &&& after.weighted_score == before.weighted_score
            &&& after.phoenix_scores == before.phoenix_scores
            &&& after.ancestors == before.ancestors
            &&& after.served_type == before.served_type
            &&& after.visibility_reason == before.visibility_reason
            &&& after.prediction_request_id == before.prediction_request_id
            &&& after.last_scored_at_ms == before.last_scored_at_ms
        }),
{
    let hydrators = pipeline.hydrator_list();
    let full = query_after(pipeline, query, outcomes);
    assert(enabled_positions(hydrators, full).len() == 5) by {
        reveal_with_fuel(enabled_positions, 6);
    }
    law_each_field_comes_from_its_hydrator(
        hydrators,
        full,
        collected(outcomes.fetches),
        outcomes.hydrations,
        i,
    );
}

proof fn lemma_hydrated_in_turn(
    hydrators: Seq<PhoenixHydrator>,
    positions: Seq<usize>,
    candidates: Seq<PostCandidate>,
    results: Seq<Result<Vec<PostCandidate>, String>>,
    k: int,
    i: int,
)
    requires
        0 <= k < results.len(),
        0 <= i < candidates.len(),
    ensures
        ({
            let before = hydrated(hydrators, positions, candidates, results.take(k));
            let after = hydrated(hydrators, positions, candidates, results.take(k + 1));
            &&& before.len() == candidates.len()
            &&& after.len() == candidates.len()
            &&& after[i] == if results[k] is Ok && results[k]->Ok_0@.len() == candidates.len() {
                hydrators[positions[k] as int].updated(before[i], results[k]->Ok_0@[i])
            } else {
                before[i]
            }
        }),
    decreases k,
{
    assert(results.take(k + 1).drop_last() =~= results.take(k));
    assert(results.take(k + 1).last() == results[k]);
    if k > 0 {
        lemma_hydrated_in_turn(hydrators, positions, candidates, results, k - 1, i);
    } else {
        assert(results.take(0) =~= Seq::empty());
    }
}

/// After the selection, what speaks against showing a candidate is what the one
/// hydrator that works there says; everything else stays as it was.
pub proof fn law_visibility_comes_from_its_hydrator(
    hydrators: Seq<PhoenixHydrator>,
    query: ScoredPostsQuery,
    candidates: Seq<PostCandidate>,
    results: Seq<Result<Vec<PostCandidate>, String>>,
    i: int,
)
    requires
        hydrators == seq![PhoenixHydrator::Visibility(VFCandidateHydrator)],
        results.len() == 1,
        0 <= i < candidates.len(),
    ensures
        ({
            let all = hydrated(hydrators, enabled_positions(hydrators, query), candidates, results);
            let succeeded = results[0] is Ok && results[0]->Ok_0@.len() == candidates.len();
            &&& all.len() == candidates.len()
            &&& all[i].visibility_reason == if succeeded {
                results[0]->Ok_0@[i].visibility_reason
            } else {
                candidates[i].visibility_reason
            }
            &&& all[i] == PostCandidate {
                visibility_reason: all[i].visibility_reason,
                ..candidates[i]
            }
        }),
{
    let positions = enabled_positions(hydrators, query);
    assert(hydrators.drop_last() =~= Seq::empty());
    assert(enabled_positions(hydrators.drop_last(), query) =~= Seq::<usize>::empty());
    assert(positions =~= seq![0usize]);
    lemma_hydrated_in_turn(hydrators, positions, candidates, results, 0, i);
    assert(results.take(0) =~= Seq::empty());
    assert(results.take(1) =~= results);
    assert(hydrators[0] is Visibility);
}

// What each hydrator says of a candidate.

/// A candidate is marked as from the network exactly if its author is the reader or
/// is among those whom the reader follows.
pub proof fn law_network_posts_are_those_of_the_reader_and_the_followed(
    query: ScoredPostsQuery,
    candidate: PostCandidate,
    hydrated: PostCandidate,
)
    requires
        holds_network(hydrated, is_in_network(query, candidate.author_id)),
    ensures
        ({
            let follows = query.user_features.followed_user_ids@;
            let hydrator = PhoenixHydrator::InNetwork(InNetworkCandidateHydrator);
            let after = hydrator.updated(candidate, hydrated);
            &&& after.in_network is Some
            &&& candidate.author_id == query.user_id as u64 ==> after.in_network == Some(true)
            &&& (exists|n: int| 0 <= n < follows.len() && #[trigger] follows[n] as u64
                == candidate.author_id) ==> after.in_network == Some(true)
            &&& candidate.author_id != query.user_id as u64 && (forall|n: int|
                0 <= n < follows.len() ==> #[trigger] follows[n] as u64 != candidate.author_id)
                ==> after.in_network == Some(false)
        }),
{
    let follows = query.user_features.followed_user_ids@;
    let converted = follows.map_values(|id: i64| id as u64);
    if exists|n: int| 0 <= n < follows.len() && #[trigger] follows[n] as u64
        == candidate.author_id {
        let n = choose|n: int|
            0 <= n < follows.len() && #[trigger] follows[n] as u64 == candidate.author_id;
        assert(converted[n] == candidate.author_id);
        assert(followed(query).contains(candidate.author_id));
    }
    if followed(query).contains(candidate.author_id) {
        let n = converted.index_of(candidate.author_id);
        assert(converted.contains(candidate.author_id));
        assert(follows[n] as u64 == candidate.author_id);
    }
}

/// The text of a candidate and what it repeats or answers are what the service says
/// about its post; nothing where the service says nothing.
pub proof fn law_core_data_reaches_the_candidate(
    candidate: PostCandidate,
    hydrated: PostCandidate,
    answer: Map<i64, Option<PureCoreData>>,
)
    requires
        holds_core_data(hydrated, answer_for(answer, candidate.tweet_id)),
    ensures
        ({
            let after = PhoenixHydrator::CoreData(CoreDataCandidateHydrator).updated(
                candidate,
                hydrated,
            );
            let id = candidate.tweet_id;
            &&& answer.contains_key(id) && answer[id] is Some ==> {
                let data = answer[id]->0;
                &&& hydrated.author_id == data.author_id
                &&& after.tweet_text == data.text
                &&& after.retweeted_tweet_id == data.source_tweet_id
                &&& after.retweeted_user_id == data.source_user_id
                &&& after.in_reply_to_tweet_id == data.in_reply_to_tweet_id
            }
            &&& !answer.contains_key(id) || answer[id] is None ==> {
                &&& after.tweet_text@.len() == 0
                &&& after.retweeted_tweet_id is None
                &&& after.retweeted_user_id is None
                &&& after.in_reply_to_tweet_id is None
            }
            &&& after.author_id == candidate.author_id
        }),
{
}

/// How long the video of a candidate is: the length of the first attachment that is a
/// video; unknown where none is, or where the service says nothing.
pub proof fn law_the_first_video_gives_the_duration(
    candidate: PostCandidate,
    hydrated: PostCandidate,
    answer: Map<i64, Option<MediaEntities>>,
)
    requires
        holds_duration(hydrated, known_duration(answer_for(answer, candidate.tweet_id))),
    ensures
        ({
            let after = PhoenixHydrator::VideoDuration(VideoDurationCandidateHydrator).updated(
                candidate,
                hydrated,
            );
            let id = candidate.tweet_id;
            &&& !answer.contains_key(id) || answer[id] is None ==> after.video_duration_ms is None
            &&& answer.contains_key(id) && answer[id] is Some ==> {
                let media = answer[id]->0@;
                &&& (forall|n: int| 0 <= n < media.len() ==> (#[trigger] media[n]).media_info is None)
                    ==> after.video_duration_ms is None
                &&& forall|n: int|
                    0 <= n < media.len() && (forall|m: int|
                        0 <= m < n ==> (#[trigger] media[m]).media_info is None) && (
                    #[trigger] media[n]).media_info is Some ==> after.video_duration_ms == Some(
                        media[n].media_info->0->VideoInfo_0.duration_millis,
                    )
            }
        }),
{
    let id = candidate.tweet_id;
    if answer.contains_key(id) && answer[id] is Some {
        let media = answer[id]->0@;
        lemma_first_duration(media);
    }
}

proof fn lemma_first_duration(media: Seq<MediaEntity>)
    ensures
        (forall|n: int| 0 <= n < media.len() ==> (#[trigger] media[n]).media_info is None)
            ==> first_duration(media) is None,
        forall|n: int|
            0 <= n < media.len() && (forall|m: int|
                0 <= m < n ==> (#[trigger] media[m]).media_info is None) && (
            #[trigger] media[n]).media_info is Some ==> first_duration(media) == Some(
                media[n].media_info->0->VideoInfo_0.duration_millis,
            ),
    decreases media.len(),
{
    if media.len() > 0 {
        let rest = media.drop_first();
        lemma_first_duration(rest);
        if media[0].media_info is None {
            if forall|n: int| 0 <= n < media.len() ==> (#[trigger] media[n]).media_info is None {
                assert forall|n: int| 0 <= n < rest.len() implies (
                #[trigger] rest[n]).media_info is None by {
                    assert(rest[n] == media[n + 1]);
                }
            }
            assert forall|n: int|
                0 <= n < media.len() && (forall|m: int|
                    0 <= m < n ==> (#[trigger] media[m]).media_info is None) && (
                #[trigger] media[n]).media_info is Some implies first_duration(media) == Some(
                media[n].media_info->0->VideoInfo_0.duration_millis,
            ) by {
                assert(rest[n - 1] == media[n]);
                assert forall|m: int| 0 <= m < n - 1 implies (
                #[trigger] rest[m]).media_info is None by {
                    assert(rest[m] == media[m + 1]);
                }
            }
        } else {
            assert forall|n: int|
                0 <= n < media.len() && (forall|m: int|
                    0 <= m < n ==> (#[trigger] media[m]).media_info is None) && (
                #[trigger] media[n]).media_info is Some implies first_duration(media) == Some(
                media[n].media_info->0->VideoInfo_0.duration_millis,
            ) by {
                if n > 0 {
                    assert(media[0].media_info is None);
                }
            }
        }
    }
}

/// For whose subscribers a candidate is: what the service says about its post.
pub proof fn law_subscriptions_reach_the_candidate(
    candidate: PostCandidate,
    hydrated: PostCandidate,
    answer: Map<i64, Option<u64>>,
)
    requires
        holds_subscription(hydrated, answer_for(answer, candidate.tweet_id)),
    ensures
        ({
            let after = PhoenixHydrator::Subscription(SubscriptionHydrator).updated(
                candidate,
                hydrated,
            );
            let id = candidate.tweet_id;
            &&& answer.contains_key(id) ==> after.subscription_author_id == answer[id]
            &&& !answer.contains_key(id) ==> after.subscription_author_id is None
        }),
{
}

/// The names of a candidate's users and the number of the author's followers are what
/// the service says about those users; nothing where it says nothing.
pub proof fn law_users_reach_the_candidate(
    candidate: PostCandidate,
    hydrated: PostCandidate,
    answer: Map<i64, Option<GizmoduckUserResult>>,
)
    requires
        holds_users(hydrated, candidate, answer),
    ensures
        ({
            let after = PhoenixHydrator::Gizmoduck(GizmoduckCandidateHydrator).updated(
                candidate,
                hydrated,
            );
            let author = candidate.author_id as i64;
            let author_is_known = answer.contains_key(author) && answer[author] is Some
                && answer[author]->0.user is Some;
            &&& author_is_known ==> {
                let user = answer[author]->0.user->0;
                &&& after.author_screen_name == Some(user.profile.screen_name)
                &&& after.author_followers_count == Some(user.counts.followers_count as i32)
            }
            &&& !author_is_known ==> after.author_screen_name is None
                && after.author_followers_count is None
            &&& candidate.retweeted_user_id is None ==> after.retweeted_screen_name is None
            &&& candidate.retweeted_user_id matches Some(repeated) ==> {
                let id = repeated as i64;
                let is_known = answer.contains_key(id) && answer[id] is Some
                    && answer[id]->0.user is Some;
                &&& is_known ==> after.retweeted_screen_name == Some(
                    answer[id]->0.user->0.profile.screen_name,
                )
                &&& !is_known ==> after.retweeted_screen_name is None
            }
        }),
{
}

/// What speaks against showing a candidate: what the second answer says about its post
/// where it names it, else what the first says, else nothing.
pub proof fn law_reasons_reach_the_candidate(
    candidate: PostCandidate,
    hydrated: PostCandidate,
    in_network: Map<i64, Option<FilteredReason>>,
    outside: Map<i64, Option<FilteredReason>>,
)
    requires
        holds_reason(hydrated, reason_for(in_network, outside, candidate.tweet_id)),
    ensures
        ({
            let after = PhoenixHydrator::Visibility(VFCandidateHydrator).updated(
                candidate,
                hydrated,
            );
            let id = candidate.tweet_id;
            &&& outside.contains_key(id) ==> after.visibility_reason == outside[id]
            &&& !outside.contains_key(id) && in_network.contains_key(id)
                ==> after.visibility_reason == in_network[id]
            &&& !outside.contains_key(id) && !in_network.contains_key(id)
                ==> after.visibility_reason is None
        }),
{
}

// What the services are asked.

/// A service is asked about the post of every candidate, in order.
pub proof fn law_services_are_asked_about_every_candidate(
    candidates: Seq<PostCandidate>,
    i: int,
)
    requires
        0 <= i < candidates.len(),
    ensures
        ids_of(candidates).len() == candidates.len(),
        ids_of(candidates)[i] == candidates[i].tweet_id,
{
}

/// The visibility service is asked about a candidate by the rules of the home timeline
/// exactly if the candidate is from the reader's network, else by those of
/// recommendations, and in the reader's name. About nothing else it is asked.
pub proof fn law_visibility_is_asked_by_network(
    candidates: Seq<PostCandidate>,
    query: ScoredPostsQuery,
    requests: (Option<VisibilityRequest>, Option<VisibilityRequest>),
    id: i64,
)
    requires
        is_request(
            requests.0,
            candidates.filter_map(|candidate: PostCandidate| network_id(candidate)),
            SafetyLevel::TimelineHome,
            query,
        ),
        is_request(
            requests.1,
            candidates.filter_map(|candidate: PostCandidate| outside_id(candidate)),
            SafetyLevel::TimelineHomeRecommendations,
            query,
        ),
    ensures
        (requests.0 is Some && requests.0->0.tweet_ids@.contains(id)) <==> exists|n: int|
            0 <= n < candidates.len() && (#[trigger] candidates[n]).tweet_id == id
                && candidates[n].in_network == Some(true),
        (requests.1 is Some && requests.1->0.tweet_ids@.contains(id)) <==> exists|n: int|
            0 <= n < candidates.len() && (#[trigger] candidates[n]).tweet_id == id
                && candidates[n].in_network != Some(true),
        requests.0 matches Some(request) ==> {
            &&& request.tweet_ids@.len() > 0
            &&& request.safety_level is TimelineHome
            &&& request.for_user_id == query.user_id
            &&& request.context matches Some(viewer) && viewer.user_id == query.user_id
                && viewer.client_application_id == query.client_app_id
                && viewer.request_country_code == query.country_code
                && viewer.request_language_code == query.language_code
        },
        requests.1 matches Some(request) ==> {
            &&& request.tweet_ids@.len() > 0
            &&& request.safety_level is TimelineHomeRecommendations
            &&& request.for_user_id == query.user_id
            &&& request.context matches Some(viewer) && viewer.user_id == query.user_id
                && viewer.client_application_id == query.client_app_id
                && viewer.request_country_code == query.country_code
                && viewer.request_language_code == query.language_code
        },
{
    let inside = |candidate: PostCandidate| network_id(candidate);
    let beyond = |candidate: PostCandidate| outside_id(candidate);
    lemma_filter_map_contains(candidates, inside, id);
    lemma_filter_map_contains(candidates, beyond, id);
    if requests.0 is None {
        assert(!candidates.filter_map(inside).contains(id));
    }
    if requests.1 is None {
        assert(!candidates.filter_map(beyond).contains(id));
    }
    if exists|n: int| 0 <= n < candidates.len() && inside(#[trigger] candidates[n]) == Some(id) {
        let n = choose|n: int|
            0 <= n < candidates.len() && inside(#[trigger] candidates[n]) == Some(id);
        assert(candidates[n].tweet_id == id && candidates[n].in_network == Some(true));
    }
    if exists|n: int| 0 <= n < candidates.len() && beyond(#[trigger] candidates[n]) == Some(id) {
        let n = choose|n: int|
            0 <= n < candidates.len() && beyond(#[trigger] candidates[n]) == Some(id);
        assert(candidates[n].tweet_id == id && candidates[n].in_network != Some(true));
    }
    if exists|n: int|
        0 <= n < candidates.len() && (#[trigger] candidates[n]).tweet_id == id
            && candidates[n].in_network == Some(true) {
        let n = choose|n: int|
            0 <= n < candidates.len() && (#[trigger] candidates[n]).tweet_id == id
                && candidates[n].in_network == Some(true);
        assert(inside(candidates[n]) == Some(id));
    }
    if exists|n: int|
        0 <= n < candidates.len() && (#[trigger] candidates[n]).tweet_id == id
            && candidates[n].in_network != Some(true) {
        let n = choose|n: int|
            0 <= n < candidates.len() && (#[trigger] candidates[n]).tweet_id == id
                && candidates[n].in_network != Some(true);
        assert(beyond(candidates[n]) == Some(id));
    }
}

proof fn lemma_filter_map_contains<A>(s: Seq<A>, f: spec_fn(A) -> Option<i64>, id: i64)
    ensures
        s.filter_map(f).contains(id) <==> exists|n: int|
            0 <= n < s.len() && f(#[trigger] s[n]) == Some(id),
    decreases s.len(),
{
    if s.len() > 0 {
        let front = s.drop_last();
        lemma_filter_map_contains(front, f, id);
        let one = seq![s.last()];
        assert(one.drop_last() =~= Seq::empty());
        assert(s =~= front + one);
        lemma_filter_map_add(front, one, f);
        reveal_with_fuel(Seq::filter_map, 2);
        let before = front.filter_map(f);
        let all = s.filter_map(f);
        assert(s[s.len() - 1] == s.last());
        assert(forall|n: int| 0 <= n < front.len() ==> #[trigger] front[n] == s[n]);
        match f(s.last()) {
            Some(last) => {
                assert(all =~= before.push(last));
                vstd::seq_lib::lemma_seq_contains_after_push(before, last, id);
                if all.contains(id) {
                    if before.contains(id) {
                        let n = choose|n: int|
                            0 <= n < front.len() && f(#[trigger] front[n]) == Some(id);
                        assert(f(s[n]) == Some(id));
                    } else {
                        let place = all.index_of(id);
                        if place < before.len() {
                            assert(before[place] == id);
                        }
                        assert(f(s[s.len() - 1]) == Some(id));
                    }
                }
                if exists|n: int| 0 <= n < s.len() && f(#[trigger] s[n]) == Some(id) {
                    let n = choose|n: int| 0 <= n < s.len() && f(#[trigger] s[n]) == Some(id);
                    if n < front.len() {
                        assert(f(front[n]) == Some(id));
                    } else {
                        assert(all[before.len() as int] == id);
                    }
                }
            },
            None => {
                assert(all =~= before);
                if all.contains(id) {
                    let n = choose|n: int|
                        0 <= n < front.len() && f(#[trigger] front[n]) == Some(id);
                    assert(f(s[n]) == Some(id));
                }
                if exists|n: int| 0 <= n < s.len() && f(#[trigger] s[n]) == Some(id) {
                    let n = choose|n: int| 0 <= n < s.len() && f(#[trigger] s[n]) == Some(id);
                    assert(f(front[n]) == Some(id));
                }
            },
        }
    } else {
        assert(s.filter_map(f) =~= Seq::empty());
    }
}

/// The users that are asked about are the authors of the candidates and those whose
/// posts the candidates repeat, each once, and no others.
pub proof fn law_users_asked_about_are_those_of_the_candidates(
    candidates: Seq<PostCandidate>,
    id: i64,
)
    ensures
        first_of_each(users_of(candidates)).no_duplicates(),
        first_of_each(users_of(candidates)).contains(id) <==> exists|n: int|
            0 <= n < candidates.len() && ((#[trigger] candidates[n]).author_id as i64 == id || (
            candidates[n].retweeted_user_id matches Some(repeated) && repeated as i64 == id)),
{
    let repeats = |candidate: PostCandidate| repeated_user(candidate);
    let author = |candidate: PostCandidate| candidate.author_id as i64;
    let authors = candidates.map_values(author);
    let repeated = candidates.filter_map(repeats);
    let all = users_of(candidates);
    assert(all == authors + repeated);
    lemma_first_of_each(all);
    lemma_filter_map_contains(candidates, repeats, id);
    if all.contains(id) {
        let place = all.index_of(id);
        if place < authors.len() {
            assert(candidates[place].author_id as i64 == id);
        } else {
            assert(repeated[place - authors.len()] == id);
            assert(repeated.contains(id));
            let n = choose|n: int| 0 <= n < candidates.len() && repeats(#[trigger] candidates[n]) == Some(
                id,
            );
            assert(candidates[n].retweeted_user_id is Some);
        }
    }
    if exists|n: int|
        0 <= n < candidates.len() && ((#[trigger] candidates[n]).author_id as i64 == id || (
        candidates[n].retweeted_user_id matches Some(repeated) && repeated as i64 == id)) {
        let n = choose|n: int|
            0 <= n < candidates.len() && ((#[trigger] candidates[n]).author_id as i64 == id || (
            candidates[n].retweeted_user_id matches Some(repeated) && repeated as i64 == id));
        if candidates[n].author_id as i64 == id {
            assert(all[n] == authors[n]);
            assert(all[n] == id);
        } else {
            assert(repeats(candidates[n]) == Some(id));
            let place = repeated.index_of(id);
            assert(all[authors.len() + place] == id);
        }
    }
}

/// Of a list without repetitions the elements stand where they come first: one element
/// more is put at the end if it is new, and left out if it is not.
pub proof fn law_first_occurrences_keep_their_order(ids: Seq<i64>, id: i64)
    ensures
        first_of_each(Seq::<i64>::empty()) == Seq::<i64>::empty(),
        ids.contains(id) ==> first_of_each(ids.push(id)) == first_of_each(ids),
        !ids.contains(id) ==> first_of_each(ids.push(id)) == first_of_each(ids).push(id),
{
    lemma_first_of_each(ids);
    assert(ids.push(id).drop_last() =~= ids);
}

// Copies and blanks.

/// A copy of a candidate has every field of the original.
pub proof fn law_copies_of_candidates_have_every_field(copy: PostCandidate, original: PostCandidate)
    requires
        copy.is_copy_of(original),
    ensures
        copy.tweet_id == original.tweet_id,
        copy.author_id == original.author_id,
        copy.tweet_text@ == original.tweet_text@,
        copy.in_reply_to_tweet_id == original.in_reply_to_tweet_id,
        copy.retweeted_tweet_id == original.retweeted_tweet_id,
        copy.retweeted_user_id == original.retweeted_user_id,
        copy.phoenix_scores == original.phoenix_scores,
        copy.prediction_request_id == original.prediction_request_id,
        copy.last_scored_at_ms == original.last_scored_at_ms,
        copy.weighted_score == original.weighted_score,
        copy.score == original.score,
        copy.served_type == original.served_type,
        copy.in_network == original.in_network,
        copy.ancestors@ == original.ancestors@,
        copy.video_duration_ms == original.video_duration_ms,
        copy.author_followers_count == original.author_followers_count,
        copy.author_screen_name == original.author_screen_name,
        copy.retweeted_screen_name == original.retweeted_screen_name,
        copy.visibility_reason == original.visibility_reason,
        copy.subscription_author_id == original.subscription_author_id,
{
}

/// A copy of a query has every field of the original.
pub proof fn law_copies_of_queries_have_every_field(
    copy: ScoredPostsQuery,
    original: ScoredPostsQuery,
)
    requires
        copy.is_copy_of(original),
    ensures
        copy.user_id == original.user_id,
        copy.client_app_id == original.client_app_id,
        copy.country_code@ == original.country_code@,
        copy.language_code@ == original.language_code@,
        copy.seen_ids@ == original.seen_ids@,
        copy.served_ids@ == original.served_ids@,
        copy.in_network_only == original.in_network_only,
        copy.is_bottom_request == original.is_bottom_request,
        copy.bloom_filter_entries@.len() == original.bloom_filter_entries@.len(),
        forall|i: int|
            0 <= i < copy.bloom_filter_entries@.len() ==> (
            #[trigger] copy.bloom_filter_entries@[i]).encoded@
                == original.bloom_filter_entries@[i].encoded@,
        copy.user_action_sequence is Some <==> original.user_action_sequence is Some,
        copy.user_action_sequence is Some ==> copy.user_action_sequence->0.encoded@
            == original.user_action_sequence->0.encoded@,
        copy.user_features.muted_keywords@ == original.user_features.muted_keywords@,
        copy.user_features.blocked_user_ids@ == original.user_features.blocked_user_ids@,
        copy.user_features.muted_user_ids@ == original.user_features.muted_user_ids@,
        copy.user_features.followed_user_ids@ == original.user_features.followed_user_ids@,
        copy.user_features.subscribed_user_ids@ == original.user_features.subscribed_user_ids@,
        copy.request_id@ == original.request_id@,
{
}

/// Of a blank candidate, and of a reader about whom nothing is known, there is nothing
/// to read.
pub proof fn law_blank_values_hold_nothing(blank: PostCandidate, features: UserFeatures)
    requires
        blank.is_blank(),
        features.is_empty(),
    ensures
        blank.tweet_id == 0,
        blank.author_id == 0,
        blank.tweet_text@.len() == 0,
        blank.in_reply_to_tweet_id is None,
        blank.retweeted_tweet_id is None,
        blank.retweeted_user_id is None,
        blank.prediction_request_id is None,
        blank.last_scored_at_ms is None,
        blank.weighted_score is None,
        blank.score is None,
        blank.served_type is None,
        blank.in_network is None,
        blank.ancestors@.len() == 0,
        blank.video_duration_ms is None,
        blank.author_followers_count is None,
        blank.author_screen_name is None,
        blank.retweeted_screen_name is None,
        blank.visibility_reason is None,
        blank.subscription_author_id is None,
        blank.phoenix_scores.favorite_score is None,
        blank.phoenix_scores.reply_score is None,
        blank.phoenix_scores.retweet_score is None,
        blank.phoenix_scores.photo_expand_score is None,
        blank.phoenix_scores.click_score is None,
        blank.phoenix_scores.profile_click_score is None,
        blank.phoenix_scores.vqv_score is None,
        blank.phoenix_scores.share_score is None,
        blank.phoenix_scores.share_via_dm_score is None,
        blank.phoenix_scores.share_via_copy_link_score is None,
        blank.phoenix_scores.dwell_score is None,
        blank.phoenix_scores.quote_score is None,
        blank.phoenix_scores.quoted_click_score is None,
        blank.phoenix_scores.follow_author_score is None,
        blank.phoenix_scores.not_interested_score is None,
        blank.phoenix_scores.block_author_score is None,
        blank.phoenix_scores.mute_author_score is None,
        blank.phoenix_scores.report_score is None,
        blank.phoenix_scores.dwell_time is None,
        features.muted_keywords@.len() == 0,
        features.blocked_user_ids@.len() == 0,
        features.muted_user_ids@.len() == 0,
        features.followed_user_ids@.len() == 0,
        features.subscribed_user_ids@.len() == 0,
{
}

// Answers.

/// Each field of a post of the answer is that of the candidate; what is not known is 0,
/// `false` or empty.
pub proof fn law_answers_carry_what_is_known(post: ScoredPost, candidate: PostCandidate)
    requires
        is_answer_for(post, candidate),
    ensures
        post.tweet_id == candidate.tweet_id as u64,
        post.author_id == candidate.author_id,
        candidate.retweeted_tweet_id matches Some(id) ==> post.retweeted_tweet_id == id,
        candidate.retweeted_tweet_id is None ==> post.retweeted_tweet_id == 0,
        candidate.retweeted_user_id matches Some(id) ==> post.retweeted_user_id == id,
        candidate.retweeted_user_id is None ==> post.retweeted_user_id == 0,
        candidate.in_reply_to_tweet_id matches Some(id) ==> post.in_reply_to_tweet_id == id,
        candidate.in_reply_to_tweet_id is None ==> post.in_reply_to_tweet_id == 0,
        candidate.score matches Some(score) ==> post.score == score,
        candidate.score is None ==> post.score.bits == 0,
        candidate.in_network matches Some(in_network) ==> post.in_network == in_network,
        candidate.in_network is None ==> !post.in_network,
        candidate.served_type matches Some(served_type) ==> post.served_type == served_type,
        candidate.served_type is None ==> post.served_type == 0,
        candidate.last_scored_at_ms matches Some(at) ==> post.last_scored_timestamp_ms == at,
        candidate.last_scored_at_ms is None ==> post.last_scored_timestamp_ms == 0,
        candidate.prediction_request_id matches Some(id) ==> post.prediction_request_id == id,
        candidate.prediction_request_id is None ==> post.prediction_request_id == 0,
        post.ancestors@ == candidate.ancestors@,
        post.visibility_reason == candidate.visibility_reason,
        post.screen_names@ == screen_names(candidate),
{
}

/// The names of a candidate: that of the author under the author's id, and that of the
/// user whose post is repeated under that user's id, which prevails where both are the
/// same user. There are no others.
pub proof fn law_names_stand_under_their_users(candidate: PostCandidate, id: u64)
    ensures
        candidate.retweeted_screen_name is Some && candidate.retweeted_user_id == Some(id)
            ==> screen_names(candidate).contains_key(id) && Some(screen_names(candidate)[id])
            == candidate.retweeted_screen_name,
        candidate.author_screen_name is Some && candidate.author_id == id && (
        candidate.retweeted_screen_name is None || candidate.retweeted_user_id != Some(id))
            ==> screen_names(candidate).contains_key(id) && Some(screen_names(candidate)[id])
            == candidate.author_screen_name,
        !(candidate.retweeted_screen_name is Some && candidate.retweeted_user_id == Some(id)) && !(
        candidate.author_screen_name is Some && candidate.author_id == id) ==> !screen_names(
            candidate,
        ).contains_key(id),
{
}

/// A query is told apart by its request id, and a refusal says what its message says.
pub proof fn law_requests_and_refusals_say_what_they_are(query: ScoredPostsQuery, message: String)
    ensures
        query.request_id_text() == query.request_id@,
        Status::InvalidArgument(message)@ == StatusView::InvalidArgument(message@),
        Status::ResourceExhausted(message)@ == StatusView::ResourceExhausted(message@),
        Status::Internal(message)@ == StatusView::Internal(message@),
{
}

// Texts.

/// The decimal text of a number: that of the number without its last digit, and the
/// last digit behind it. A number below ten is one digit, and one below zero is a minus
/// sign before the text of the number without it.
pub proof fn law_decimal_texts_are_decimal(n: int)
    ensures
        0 <= n < 10 ==> decimal_text(n).len() == 1 && decimal_text(n)[0] as int == '0' as int + n,
        n >= 10 ==> decimal_text(n).len() == decimal_text(n / 10).len() + 1
            && decimal_text(n).drop_last() == decimal_text(n / 10) && decimal_text(n).last() as int
            == '0' as int + n % 10,
        n < 0 ==> decimal_text(n) == seq!['-'] + decimal_text(-n),
{
    if n >= 10 {
        assert(decimal_text(n).drop_last() =~= decimal_text(n / 10));
    }
}

/// The characters of white space.
pub proof fn law_white_space_is_unicodes(c: char)
    ensures
        is_white_space(c) <==> set![
            0x09u32, 0x0a, 0x0b, 0x0c, 0x0d, 0x20, 0x85, 0xa0, 0x1680, 0x2000, 0x2001, 0x2002,
            0x2003, 0x2004, 0x2005, 0x2006, 0x2007, 0x2008, 0x2009, 0x200a, 0x2028, 0x2029, 0x202f,
            0x205f, 0x3000,
        ].contains(c as u32),
{
}

} // verus!

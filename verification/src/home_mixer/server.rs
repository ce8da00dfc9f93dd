//! Answering requests for scored posts.

use std::collections::HashMap;
use vstd::prelude::*;

use crate::home_mixer::candidate::{screen_names, CandidateHelpers, PostCandidate};
use crate::home_mixer::query::{ImpressionBloomFilterEntry, ScoredPostsQuery};
use crate::home_mixer::visibility::FilteredReason;
use crate::score::Score;
use crate::seqs::reversed;
use crate::status::{Status, StatusView};
use crate::text::decimal_text;

verus! {

/// A request for scored posts, as it arrives.
#[derive(Clone, Debug, PartialEq, Eq)]
pub struct ScoredPostsRequest {
    pub viewer_id: i64,
    pub client_app_id: i32,
    pub country_code: String,
    pub language_code: String,
    pub seen_ids: Vec<i64>,
    pub served_ids: Vec<i64>,
    pub in_network_only: bool,
    pub is_bottom_request: bool,
    pub bloom_filter_entries: Vec<ImpressionBloomFilterEntry>,
}

/// A post of the answer. What is not known is 0, `false` or empty.
pub struct ScoredPost {
    pub tweet_id: u64,
    pub author_id: u64,
    pub retweeted_tweet_id: u64,
    pub retweeted_user_id: u64,
    pub in_reply_to_tweet_id: u64,
    pub score: Score,
    pub in_network: bool,
    pub served_type: i32,
    pub last_scored_timestamp_ms: u64,
    pub prediction_request_id: u64,
    pub ancestors: Vec<u64>,
    pub screen_names: HashMap<u64, String>,
    pub visibility_reason: Option<FilteredReason>,
}

/// The query that a request becomes. A request that does not say who reads is
/// refused.
pub fn accept_request(request: ScoredPostsRequest, generated_id: &str) -> (query: Result<
    ScoredPostsQuery,
    Status,
>)
    ensures
        request.viewer_id == 0 ==> query is Err && query->Err_0@ == StatusView::InvalidArgument(
            "viewer_id must be specified"@,
        ),
        request.viewer_id != 0 ==> (query matches Ok(accepted) && {
            &&& accepted.user_id == request.viewer_id
            &&& accepted.client_app_id == request.client_app_id
            &&& accepted.country_code == request.country_code
            &&& accepted.language_code == request.language_code
            &&& accepted.seen_ids == request.seen_ids
            &&& accepted.served_ids == request.served_ids
            &&& accepted.in_network_only == request.in_network_only
            &&& accepted.is_bottom_request == request.is_bottom_request
            &&& accepted.bloom_filter_entries == request.bloom_filter_entries
            &&& accepted.user_action_sequence is None
            &&& accepted.user_features.is_empty()
            &&& accepted.request_id@ == generated_id@ + "-"@ + decimal_text(
                request.viewer_id as int,
            )
        }),
{
    if request.viewer_id == 0 {
        return Err(Status::InvalidArgument(String::from_str("viewer_id must be specified")));
    }
    Ok(
        ScoredPostsQuery::new(
            request.viewer_id,
            request.client_app_id,
            request.country_code,
            request.language_code,
            request.seen_ids,
            request.served_ids,
            request.in_network_only,
            request.is_bottom_request,
            request.bloom_filter_entries,
            generated_id,
        ),
    )
}

/// The value, or 0 where there is none.
pub open spec fn or_zero(value: Option<u64>) -> u64 {
    match value {
        Some(value) => value,
        None => 0,
    }
}

fn value_or_zero(value: Option<u64>) -> (result: u64)
    ensures
        result == or_zero(value),
{
    match value {
        Some(value) => value,
        None => 0,
    }
}

/// `post` is what a candidate becomes in the answer.
pub open spec fn is_answer_for(post: ScoredPost, candidate: PostCandidate) -> bool {
    &&& post.tweet_id == candidate.tweet_id as u64
    &&& post.author_id == candidate.author_id
    &&& post.retweeted_tweet_id == or_zero(candidate.retweeted_tweet_id)
    &&& post.retweeted_user_id == or_zero(candidate.retweeted_user_id)
    &&& post.in_reply_to_tweet_id == or_zero(candidate.in_reply_to_tweet_id)
    &&& post.score == match candidate.score {
        Some(score) => score,
        None => Score { bits: 0 },
    }
    &&& post.in_network == (candidate.in_network == Some(true))
    &&& post.served_type == match candidate.served_type {
        Some(served_type) => served_type,
        None => 0i32,
    }
    &&& post.last_scored_timestamp_ms == or_zero(candidate.last_scored_at_ms)
    &&& post.prediction_request_id == or_zero(candidate.prediction_request_id)
    &&& post.ancestors == candidate.ancestors
    &&& post.screen_names@ == screen_names(candidate)
    &&& post.visibility_reason == candidate.visibility_reason
}

/// What a candidate becomes in the answer.
pub fn to_scored_post(candidate: PostCandidate) -> (post: ScoredPost)
    ensures
        is_answer_for(post, candidate),
{
    let names = candidate.get_screen_names();
    ScoredPost {
        tweet_id: candidate.tweet_id as u64,
        author_id: candidate.author_id,
        retweeted_tweet_id: value_or_zero(candidate.retweeted_tweet_id),
        retweeted_user_id: value_or_zero(candidate.retweeted_user_id),
        in_reply_to_tweet_id: value_or_zero(candidate.in_reply_to_tweet_id),
        score: match candidate.score {
            Some(score) => score,
            None => Score::zero(),
        },
        in_network: match candidate.in_network {
            Some(in_network) => in_network,
            None => false,
        },
        served_type: match candidate.served_type {
            Some(served_type) => served_type,
            None => 0,
        },
        last_scored_timestamp_ms: value_or_zero(candidate.last_scored_at_ms),
        prediction_request_id: value_or_zero(candidate.prediction_request_id),
        ancestors: candidate.ancestors,
        screen_names: names,
        visibility_reason: candidate.visibility_reason,
    }
}

/// The answer: what each of the selected candidates becomes, in order.
pub fn get_scored_posts(selected_candidates: Vec<PostCandidate>) -> (posts: Vec<ScoredPost>)
    ensures
        posts@.len() == selected_candidates@.len(),
        forall|i: int|
            0 <= i < posts@.len() ==> is_answer_for(
                #[trigger] posts@[i],
                selected_candidates@[i],
            ),
{
    let ghost all = selected_candidates@;
    let mut posts: Vec<ScoredPost> = Vec::with_capacity(selected_candidates.len());
    let mut upcoming = reversed(selected_candidates);
    while upcoming.len() > 0
        invariant
            posts@.len() + upcoming@.len() == all.len(),
            forall|n: int|
                0 <= n < upcoming@.len() ==> #[trigger] upcoming@[n] == all[all.len() - 1 - n],
            forall|i: int| 0 <= i < posts@.len() ==> is_answer_for(#[trigger] posts@[i], all[i]),
        decreases upcoming@.len(),
    {
        let ghost before = upcoming@;
        if let Some(candidate) = upcoming.pop() {
            assert(candidate == all[all.len() - before.len()]);
            posts.push(to_scored_post(candidate));
        }
    }
    posts
}

} // verus!

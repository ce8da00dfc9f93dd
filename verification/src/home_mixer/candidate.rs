//! The candidates that the feed is made of.

use std::collections::HashMap;
use vstd::prelude::*;

use crate::candidate_pipeline::component::Duplicable;
use crate::home_mixer::visibility::FilteredReason;
use crate::score::Score;

verus! {

broadcast use vstd::std_specs::hash::group_hash_axioms;

/// How likely the reader is to act on a post, action by action.
#[derive(Clone, Copy, Debug, PartialEq, Eq, Structural)]
pub struct PhoenixScores {
    pub favorite_score: Option<Score>,
    pub reply_score: Option<Score>,
    pub retweet_score: Option<Score>,
    pub photo_expand_score: Option<Score>,
    pub click_score: Option<Score>,
    pub profile_click_score: Option<Score>,
    pub vqv_score: Option<Score>,
    pub share_score: Option<Score>,
    pub share_via_dm_score: Option<Score>,
    pub share_via_copy_link_score: Option<Score>,
    pub dwell_score: Option<Score>,
    pub quote_score: Option<Score>,
    pub quoted_click_score: Option<Score>,
    pub follow_author_score: Option<Score>,
    pub not_interested_score: Option<Score>,
    pub block_author_score: Option<Score>,
    pub mute_author_score: Option<Score>,
    pub report_score: Option<Score>,
    pub dwell_time: Option<Score>,
}

impl PhoenixScores {
    /// No score at all.
    pub open spec fn none() -> PhoenixScores {
        PhoenixScores {
            favorite_score: None,
            reply_score: None,
            retweet_score: None,
            photo_expand_score: None,
            click_score: None,
            profile_click_score: None,
            vqv_score: None,
            share_score: None,
            share_via_dm_score: None,
            share_via_copy_link_score: None,
            dwell_score: None,
            quote_score: None,
            quoted_click_score: None,
            follow_author_score: None,
            not_interested_score: None,
            block_author_score: None,
            mute_author_score: None,
            report_score: None,
            dwell_time: None,
        }
    }
}

impl Default for PhoenixScores {
    /// No score at all.
    fn default() -> (scores: PhoenixScores)
        ensures
            scores == PhoenixScores::none(),
    {
        PhoenixScores {
            favorite_score: None,
            reply_score: None,
            retweet_score: None,
            photo_expand_score: None,
            click_score: None,
            profile_click_score: None,
            vqv_score: None,
            share_score: None,
            share_via_dm_score: None,
            share_via_copy_link_score: None,
            dwell_score: None,
            quote_score: None,
            quoted_click_score: None,
            follow_author_score: None,
            not_interested_score: None,
            block_author_score: None,
            mute_author_score: None,
            report_score: None,
            dwell_time: None,
        }
    }
}

/// A post that may answer a request, with what is known about it so far.
#[derive(Clone, Debug, PartialEq, Eq)]
pub struct PostCandidate {
    pub tweet_id: i64,
    pub author_id: u64,
    pub tweet_text: String,
    pub in_reply_to_tweet_id: Option<u64>,
    pub retweeted_tweet_id: Option<u64>,
    pub retweeted_user_id: Option<u64>,
    pub phoenix_scores: PhoenixScores,
    pub prediction_request_id: Option<u64>,
    pub last_scored_at_ms: Option<u64>,
    pub weighted_score: Option<Score>,
    pub score: Option<Score>,
    /// Where the candidate came from, by the number that callers know it by.
    pub served_type: Option<i32>,
    pub in_network: Option<bool>,
    pub ancestors: Vec<u64>,
    pub video_duration_ms: Option<i32>,
    pub author_followers_count: Option<i32>,
    pub author_screen_name: Option<String>,
    pub retweeted_screen_name: Option<String>,
    pub visibility_reason: Option<FilteredReason>,
    pub subscription_author_id: Option<u64>,
}

impl PostCandidate {
    /// Nothing is known about the candidate.
    pub open spec fn is_blank(self) -> bool {
        &&& self.tweet_id == 0
        &&& self.author_id == 0
        &&& self.tweet_text@.len() == 0
        &&& self.in_reply_to_tweet_id is None
        &&& self.retweeted_tweet_id is None
        &&& self.retweeted_user_id is None
        &&& self.phoenix_scores == PhoenixScores::none()
        &&& self.prediction_request_id is None
        &&& self.last_scored_at_ms is None
        &&& self.weighted_score is None
        &&& self.score is None
        &&& self.served_type is None
        &&& self.in_network is None
        &&& self.ancestors@.len() == 0
        &&& self.video_duration_ms is None
        &&& self.author_followers_count is None
        &&& self.author_screen_name is None
        &&& self.retweeted_screen_name is None
        &&& self.visibility_reason is None
        &&& self.subscription_author_id is None
    }
}

impl Default for PostCandidate {
    /// A candidate about which nothing is known.
    fn default() -> (candidate: PostCandidate)
        ensures
            candidate.is_blank(),
    {
        PostCandidate {
            tweet_id: 0,
            author_id: 0,
            tweet_text: String::new(),
            in_reply_to_tweet_id: None,
            retweeted_tweet_id: None,
            retweeted_user_id: None,
            phoenix_scores: PhoenixScores::default(),
            prediction_request_id: None,
            last_scored_at_ms: None,
            weighted_score: None,
            score: None,
            served_type: None,
            in_network: None,
            ancestors: Vec::new(),
            video_duration_ms: None,
            author_followers_count: None,
            author_screen_name: None,
            retweeted_screen_name: None,
            visibility_reason: None,
            subscription_author_id: None,
        }
    }
}

/// A copy of a text that may be missing.
pub fn copy_text(text: &Option<String>) -> (copy: Option<String>)
    ensures
        copy == *text,
{
    match text {
        Some(text) => Some(text.clone()),
        None => None,
    }
}

impl Duplicable for PostCandidate {
    open spec fn is_copy_of(self, original: PostCandidate) -> bool {
        &&& self == PostCandidate { ancestors: self.ancestors, ..original }
        &&& self.ancestors@ == original.ancestors@
    }

    fn duplicate(&self) -> (copy: PostCandidate) {
        let ancestors = self.ancestors.clone();
        assert(ancestors@ =~= self.ancestors@);
        PostCandidate {
            tweet_id: self.tweet_id,
            author_id: self.author_id,
            tweet_text: self.tweet_text.clone(),
            in_reply_to_tweet_id: self.in_reply_to_tweet_id,
            retweeted_tweet_id: self.retweeted_tweet_id,
            retweeted_user_id: self.retweeted_user_id,
            phoenix_scores: self.phoenix_scores,
            prediction_request_id: self.prediction_request_id,
            last_scored_at_ms: self.last_scored_at_ms,
            weighted_score: self.weighted_score,
            score: self.score,
            served_type: self.served_type,
            in_network: self.in_network,
            ancestors,
            video_duration_ms: self.video_duration_ms,
            author_followers_count: self.author_followers_count,
            author_screen_name: copy_text(&self.author_screen_name),
            retweeted_screen_name: copy_text(&self.retweeted_screen_name),
            visibility_reason: self.visibility_reason,
            subscription_author_id: self.subscription_author_id,
        }
    }
}

/// The screen names that a candidate brings: the author's, and that of the user
/// whose post is repeated, which prevails where both are the same user.
pub open spec fn screen_names(candidate: PostCandidate) -> Map<u64, String> {
    let author = match candidate.author_screen_name {
        Some(name) => Map::empty().insert(candidate.author_id, name),
        None => Map::empty(),
    };
    match (candidate.retweeted_screen_name, candidate.retweeted_user_id) {
        (Some(name), Some(user_id)) => author.insert(user_id, name),
        _ => author,
    }
}

/// What can be read off a candidate.
pub trait CandidateHelpers {
    /// The screen names that the candidate brings, by user id.
    spec fn names(&self) -> Map<u64, String>;

    /// The screen names that the candidate brings, by user id.
    fn get_screen_names(&self) -> (found: HashMap<u64, String>)
        ensures
            found@ == self.names(),
    ;
}

impl CandidateHelpers for PostCandidate {
    open spec fn names(&self) -> Map<u64, String> {
        screen_names(*self)
    }

    fn get_screen_names(&self) -> (found: HashMap<u64, String>) {
        let mut found: HashMap<u64, String> = HashMap::new();
        if let Some(name) = &self.author_screen_name {
            found.insert(self.author_id, name.clone());
        }
        if let Some(name) = &self.retweeted_screen_name {
            if let Some(user_id) = self.retweeted_user_id {
                found.insert(user_id, name.clone());
            }
        }
        assert(found@ =~= screen_names(*self));
        found
    }
}

} // verus!

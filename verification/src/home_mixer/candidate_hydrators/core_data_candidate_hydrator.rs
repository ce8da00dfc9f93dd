//! Fills in the central data of posts.

use std::collections::HashMap;
use vstd::prelude::*;

use crate::candidate_pipeline::component::Component;
use crate::candidate_pipeline::hydrator::Hydrator;
use crate::home_mixer::candidate::PostCandidate;
use crate::home_mixer::candidate_features::PureCoreData;
use crate::home_mixer::candidate_hydrators::common::{answer_for, look_up};
use crate::home_mixer::query::ScoredPostsQuery;

verus! {

broadcast use vstd::std_specs::hash::group_hash_axioms;

/// Fills in the text of a post and what it repeats or answers.
pub struct CoreDataCandidateHydrator;

impl Component<ScoredPostsQuery> for CoreDataCandidateHydrator {
    open spec fn is_enabled(&self, query: ScoredPostsQuery) -> bool {
        true
    }

    fn enable(&self, query: &ScoredPostsQuery) -> (enabled: bool) {
        true
    }

    fn name(&self) -> (name: &'static str)
        ensures
            name@ == "CoreDataCandidateHydrator"@,
    {
        "CoreDataCandidateHydrator"
    }
}

impl Hydrator<ScoredPostsQuery, PostCandidate> for CoreDataCandidateHydrator {
    open spec fn updated(
        &self,
        candidate: PostCandidate,
        hydrated: PostCandidate,
    ) -> PostCandidate {
        PostCandidate {
            retweeted_user_id: hydrated.retweeted_user_id,
            retweeted_tweet_id: hydrated.retweeted_tweet_id,
            in_reply_to_tweet_id: hydrated.in_reply_to_tweet_id,
            tweet_text: hydrated.tweet_text,
            ..candidate
        }
    }

    fn update(&self, candidate: &mut PostCandidate, hydrated: PostCandidate) {
        candidate.retweeted_user_id = hydrated.retweeted_user_id;
        candidate.retweeted_tweet_id = hydrated.retweeted_tweet_id;
        candidate.in_reply_to_tweet_id = hydrated.in_reply_to_tweet_id;
        candidate.tweet_text = hydrated.tweet_text;
    }
}

/// `hydrated` holds what `core_data` says and nothing else.
pub open spec fn holds_core_data(hydrated: PostCandidate, core_data: Option<PureCoreData>) -> bool {
    exists|blank: PostCandidate| #[trigger]
        blank.is_blank() && hydrated == match core_data {
            Some(data) => PostCandidate {
                author_id: data.author_id,
                retweeted_user_id: data.source_user_id,
                retweeted_tweet_id: data.source_tweet_id,
                in_reply_to_tweet_id: data.in_reply_to_tweet_id,
                tweet_text: data.text,
                ..blank
            },
            None => blank,
        }
}

impl CoreDataCandidateHydrator {
    /// What the service's answer to the ids of the candidates says about each of
    /// them. An answer that is an error is passed on.
    pub fn hydrate(
        &self,
        candidates: &Vec<PostCandidate>,
        answer: Result<HashMap<i64, Option<PureCoreData>>, String>,
    ) -> (result: Result<Vec<PostCandidate>, String>)
        ensures
            (match answer {
                Err(cause) => result == Err::<Vec<PostCandidate>, String>(cause),
                Ok(post_features) => result matches Ok(hydrated) && hydrated@.len()
                    == candidates@.len() && forall|i: int|
                    0 <= i < hydrated@.len() ==> holds_core_data(
                        #[trigger] hydrated@[i],
                        answer_for(post_features@, candidates@[i].tweet_id),
                    ),
            }),
    {
        let post_features = match answer {
            Ok(post_features) => post_features,
            Err(cause) => return Err(cause),
        };
        let mut hydrated: Vec<PostCandidate> = Vec::with_capacity(candidates.len());
        let mut i: usize = 0;
        while i < candidates.len()
            invariant
                i <= candidates.len(),
                hydrated@.len() == i,
                forall|n: int|
                    0 <= n < i ==> holds_core_data(
                        #[trigger] hydrated@[n],
                        answer_for(post_features@, candidates@[n].tweet_id),
                    ),
            decreases candidates.len() - i,
        {
            let blank = PostCandidate::default();
            let ghost before = blank;
            let next = match look_up(&post_features, candidates[i].tweet_id) {
                Some(core_data) => PostCandidate {
                    author_id: core_data.author_id,
                    retweeted_user_id: core_data.source_user_id,
                    retweeted_tweet_id: core_data.source_tweet_id,
                    in_reply_to_tweet_id: core_data.in_reply_to_tweet_id,
                    tweet_text: core_data.text.clone(),
                    ..blank
                },
                None => blank,
            };
            assert(before.is_blank());
            hydrated.push(next);
            i = i + 1;
        }
        Ok(hydrated)
    }
}

} // verus!

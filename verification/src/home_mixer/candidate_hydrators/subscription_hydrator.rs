//! Fills in for whose subscribers posts are.

use std::collections::HashMap;
use vstd::prelude::*;

use crate::candidate_pipeline::component::Component;
use crate::candidate_pipeline::hydrator::Hydrator;
use crate::home_mixer::candidate::PostCandidate;
use crate::home_mixer::candidate_hydrators::common::{answer_for, look_up};
use crate::home_mixer::query::ScoredPostsQuery;

verus! {

broadcast use vstd::std_specs::hash::group_hash_axioms;

/// Fills in for whose subscribers a post is.
pub struct SubscriptionHydrator;

impl Component<ScoredPostsQuery> for SubscriptionHydrator {
    open spec fn is_enabled(&self, query: ScoredPostsQuery) -> bool {
        true
    }

    fn enable(&self, query: &ScoredPostsQuery) -> (enabled: bool) {
        true
    }

    fn name(&self) -> (name: &'static str)
        ensures
            name@ == "SubscriptionHydrator"@,
    {
        "SubscriptionHydrator"
    }
}

impl Hydrator<ScoredPostsQuery, PostCandidate> for SubscriptionHydrator {
    open spec fn updated(
        &self,
        candidate: PostCandidate,
        hydrated: PostCandidate,
    ) -> PostCandidate {
        PostCandidate { subscription_author_id: hydrated.subscription_author_id, ..candidate }
    }

    fn update(&self, candidate: &mut PostCandidate, hydrated: PostCandidate) {
        candidate.subscription_author_id = hydrated.subscription_author_id;
    }
}

/// `hydrated` holds the author for whose subscribers the post is and nothing else.
pub open spec fn holds_subscription(hydrated: PostCandidate, author_id: Option<u64>) -> bool {
    exists|blank: PostCandidate| #[trigger]
        blank.is_blank() && hydrated == (PostCandidate {
            subscription_author_id: author_id,
            ..blank
        })
}

impl SubscriptionHydrator {
    /// What the service's answer to the ids of the candidates says about each of
    /// them. An answer that is an error is passed on.
    pub fn hydrate(
        &self,
        candidates: &Vec<PostCandidate>,
        answer: Result<HashMap<i64, Option<u64>>, String>,
    ) -> (result: Result<Vec<PostCandidate>, String>)
        ensures
            (match answer {
                Err(cause) => result == Err::<Vec<PostCandidate>, String>(cause),
                Ok(post_features) => result matches Ok(hydrated) && hydrated@.len()
                    == candidates@.len() && forall|i: int|
                    0 <= i < hydrated@.len() ==> holds_subscription(
                        #[trigger] hydrated@[i],
                        answer_for(post_features@, candidates@[i].tweet_id),
                    ),
            }),
    {
        let post_features = match answer {
            Ok(post_features) => post_features,
            Err(cause) => return Err(cause),
        };
        let mut hydrated: Vec<PostCandidate> = Vec::with_capacity(candidates.len());
        let mut i: usize = 0;
        while i < candidates.len()
            invariant
                i <= candidates.len(),
                hydrated@.len() == i,
                forall|n: int|
                    0 <= n < i ==> holds_subscription(
                        #[trigger] hydrated@[n],
                        answer_for(post_features@, candidates@[n].tweet_id),
                    ),
            decreases candidates.len() - i,
        {
            let subscription_author_id: Option<u64> = match look_up(
                &post_features,
                candidates[i].tweet_id,
            ) {
                Some(author_id) => Some(*author_id),
                None => None,
            };
            let blank = PostCandidate::default();
            assert(blank.is_blank());
            hydrated.push(PostCandidate { subscription_author_id, ..blank });
            i = i + 1;
        }
        Ok(hydrated)
    }
}

} // verus!

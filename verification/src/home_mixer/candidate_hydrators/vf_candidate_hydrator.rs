//! Fills in what speaks against showing posts.

use std::collections::HashMap;
use vstd::prelude::*;

use crate::candidate_pipeline::component::Component;
use crate::candidate_pipeline::hydrator::Hydrator;
use crate::home_mixer::candidate::PostCandidate;
use crate::home_mixer::candidate_hydrators::common::answer_for;
use crate::home_mixer::query::{ScoredPostsQuery, TwitterContextViewer};
use crate::home_mixer::visibility::{FilteredReason, SafetyLevel};
use crate::seqs::lemma_filter_map_step;

verus! {

broadcast use vstd::std_specs::hash::group_hash_axioms;

/// Fills in what speaks against showing a post.
pub struct VFCandidateHydrator;

impl Component<ScoredPostsQuery> for VFCandidateHydrator {
    open spec fn is_enabled(&self, query: ScoredPostsQuery) -> bool {
        true
    }

    fn enable(&self, query: &ScoredPostsQuery) -> (enabled: bool) {
        true
    }

    fn name(&self) -> (name: &'static str)
        ensures
            name@ == "VFCandidateHydrator"@,
    {
        "VFCandidateHydrator"
    }
}

impl Hydrator<ScoredPostsQuery, PostCandidate> for VFCandidateHydrator {
    open spec fn updated(
        &self,
        candidate: PostCandidate,
        hydrated: PostCandidate,
    ) -> PostCandidate {
        PostCandidate { visibility_reason: hydrated.visibility_reason, ..candidate }
    }

    fn update(&self, candidate: &mut PostCandidate, hydrated: PostCandidate) {
        candidate.visibility_reason = hydrated.visibility_reason;
    }
}

/// What the visibility service is asked.
#[derive(Clone, Debug, PartialEq, Eq)]
pub struct VisibilityRequest {
    pub tweet_ids: Vec<i64>,
    pub safety_level: SafetyLevel,
    pub for_user_id: i64,
    pub context: Option<TwitterContextViewer>,
}

/// The post of a candidate from the reader's network.
pub open spec fn network_id(candidate: PostCandidate) -> Option<i64> {
    if candidate.in_network == Some(true) {
        Some(candidate.tweet_id)
    } else {
        None
    }
}

/// The post of a candidate that is not known to be from the reader's network.
pub open spec fn outside_id(candidate: PostCandidate) -> Option<i64> {
    if candidate.in_network == Some(true) {
        None
    } else {
        Some(candidate.tweet_id)
    }
}

/// `request` asks about `ids` at `safety_level`; about no posts nothing is asked.
pub open spec fn is_request(
    request: Option<VisibilityRequest>,
    ids: Seq<i64>,
    safety_level: SafetyLevel,
    query: ScoredPostsQuery,
) -> bool {
    match request {
        None => ids.len() == 0,
        Some(request) => {
            &&& ids.len() > 0
            &&& request.tweet_ids@ == ids
            &&& request.safety_level == safety_level
            &&& request.for_user_id == query.user_id
            &&& request.context == Some(
                TwitterContextViewer {
                    user_id: query.user_id,
                    client_application_id: query.client_app_id as i64,
                    request_country_code: query.country_code,
                    request_language_code: query.language_code,
                },
            )
        },
    }
}

fn request_for(ids: Vec<i64>, safety_level: SafetyLevel, query: &ScoredPostsQuery) -> (request:
    Option<VisibilityRequest>)
    ensures
        is_request(request, ids@, safety_level, *query),
{
    if ids.len() == 0 {
        None
    } else {
        Some(
            VisibilityRequest {
                tweet_ids: ids,
                safety_level,
                for_user_id: query.user_id,
                context: query.get_viewer(),
            },
        )
    }
}

/// What both answers say about a post; where both name it the second prevails.
pub open spec fn reason_for(
    in_network: Map<i64, Option<FilteredReason>>,
    outside: Map<i64, Option<FilteredReason>>,
    id: i64,
) -> Option<FilteredReason> {
    answer_for(in_network.union_prefer_right(outside), id)
}

/// `hydrated` holds what speaks against showing the post and nothing else.
pub open spec fn holds_reason(hydrated: PostCandidate, reason: Option<FilteredReason>) -> bool {
    exists|blank: PostCandidate| #[trigger]
        blank.is_blank() && hydrated == (PostCandidate { visibility_reason: reason, ..blank })
}

impl VFCandidateHydrator {
    /// What the visibility service is asked: about the candidates from the
    /// reader's network by the rules of the home timeline, about the others by
    /// those of recommendations.
    pub fn requests(&self, query: &ScoredPostsQuery, candidates: &Vec<PostCandidate>) -> (requests:
        (Option<VisibilityRequest>, Option<VisibilityRequest>))
        ensures
            is_request(
                requests.0,
                candidates@.filter_map(|candidate: PostCandidate| network_id(candidate)),
                SafetyLevel::TimelineHome,
                *query,
            ),
            is_request(
                requests.1,
                candidates@.filter_map(|candidate: PostCandidate| outside_id(candidate)),
                SafetyLevel::TimelineHomeRecommendations,
                *query,
            ),
    {
        let ghost inside = |candidate: PostCandidate| network_id(candidate);
        let ghost outside = |candidate: PostCandidate| outside_id(candidate);
        let mut in_network_ids: Vec<i64> = Vec::new();
        let mut oon_ids: Vec<i64> = Vec::new();
        let mut i: usize = 0;
        while i < candidates.len()
            invariant
                i <= candidates.len(),
                inside == (|candidate: PostCandidate| network_id(candidate)),
                outside == (|candidate: PostCandidate| outside_id(candidate)),
                in_network_ids@ == candidates@.take(i as int).filter_map(inside),
                oon_ids@ == candidates@.take(i as int).filter_map(outside),
            decreases candidates.len() - i,
        {
            proof {
                lemma_filter_map_step(candidates@, i as int, inside);
                lemma_filter_map_step(candidates@, i as int, outside);
            }
            let candidate = &candidates[i];
            let in_network = match candidate.in_network {
                Some(in_network) => in_network,
                None => false,
            };
            if in_network {
                in_network_ids.push(candidate.tweet_id);
            } else {
                oon_ids.push(candidate.tweet_id);
            }
            i = i + 1;
        }
        assert(candidates@.take(i as int) =~= candidates@);
        (
            request_for(in_network_ids, SafetyLevel::TimelineHome, query),
            request_for(oon_ids, SafetyLevel::TimelineHomeRecommendations, query),
        )
    }

    /// What the service's two answers say about each candidate; a request that
    /// was not made counts as answered with nothing. An answer that is an error
    /// is passed on, the first one first.
    pub fn hydrate(
        &self,
        candidates: &Vec<PostCandidate>,
        in_network_answer: Result<HashMap<i64, Option<FilteredReason>>, String>,
        oon_answer: Result<HashMap<i64, Option<FilteredReason>>, String>,
    ) -> (result: Result<Vec<PostCandidate>, String>)
        ensures
            (match (in_network_answer, oon_answer) {
                (Err(cause), _) => result == Err::<Vec<PostCandidate>, String>(cause),
                (Ok(_), Err(cause)) => result == Err::<Vec<PostCandidate>, String>(cause),
                (Ok(in_network), Ok(oon)) => result matches Ok(hydrated) && hydrated@.len()
                    == candidates@.len() && forall|i: int|
                    0 <= i < hydrated@.len() ==> holds_reason(
                        #[trigger] hydrated@[i],
                        reason_for(in_network@, oon@, candidates@[i].tweet_id),
                    ),
            }),
    {
        let in_network = match in_network_answer {
            Ok(in_network) => in_network,
            Err(cause) => return Err(cause),
        };
        let oon = match oon_answer {
            Ok(oon) => oon,
            Err(cause) => return Err(cause),
        };
        let mut hydrated: Vec<PostCandidate> = Vec::with_capacity(candidates.len());
        let mut i: usize = 0;
        while i < candidates.len()
            invariant
                i <= candidates.len(),
                hydrated@.len() == i,
                forall|n: int|
                    0 <= n < i ==> holds_reason(
                        #[trigger] hydrated@[n],
                        reason_for(in_network@, oon@, candidates@[n].tweet_id),
                    ),
            decreases candidates.len() - i,
        {
            let tweet_id = candidates[i].tweet_id;
            let visibility_reason = match oon.get(&tweet_id) {
                Some(reason) => *reason,
                None => match in_network.get(&tweet_id) {
                    Some(reason) => *reason,
                    None => None,
                },
            };
            let blank = PostCandidate::default();
            assert(blank.is_blank());
            hydrated.push(PostCandidate { visibility_reason, ..blank });
            i = i + 1;
        }
        Ok(hydrated)
    }
}

} // verus!

//! Fills in whether posts come from the reader's network.

use std::collections::HashSet;
use vstd::prelude::*;

use crate::candidate_pipeline::component::Component;
use crate::candidate_pipeline::hydrator::Hydrator;
use crate::home_mixer::candidate::PostCandidate;
use crate::home_mixer::query::ScoredPostsQuery;

verus! {

broadcast use vstd::std_specs::hash::group_hash_axioms;

/// Fills in whether the author of a post is the reader or followed by the reader.
pub struct InNetworkCandidateHydrator;

impl Component<ScoredPostsQuery> for InNetworkCandidateHydrator {
    open spec fn is_enabled(&self, query: ScoredPostsQuery) -> bool {
        true
    }

    fn enable(&self, query: &ScoredPostsQuery) -> (enabled: bool) {
        true
    }

    fn name(&self) -> (name: &'static str)
        ensures
            name@ == "InNetworkCandidateHydrator"@,
    {
        "InNetworkCandidateHydrator"
    }
}

impl Hydrator<ScoredPostsQuery, PostCandidate> for InNetworkCandidateHydrator {
    open spec fn updated(
        &self,
        candidate: PostCandidate,
        hydrated: PostCandidate,
    ) -> PostCandidate {
        PostCandidate { in_network: hydrated.in_network, ..candidate }
    }

    fn update(&self, candidate: &mut PostCandidate, hydrated: PostCandidate) {
        candidate.in_network = hydrated.in_network;
    }
}

/// The accounts that the reader follows.
pub open spec fn followed(query: ScoredPostsQuery) -> Set<u64> {
    query.user_features.followed_user_ids@.map_values(|id: i64| id as u64).to_set()
}

/// Whether `author_id` is the reader or followed by the reader.
pub open spec fn is_in_network(query: ScoredPostsQuery, author_id: u64) -> bool {
    author_id == query.user_id as u64 || followed(query).contains(author_id)
}

/// `hydrated` holds whether the post is from the network and nothing else.
pub open spec fn holds_network(hydrated: PostCandidate, in_network: bool) -> bool {
    exists|blank: PostCandidate| #[trigger]
        blank.is_blank() && hydrated == (PostCandidate { in_network: Some(in_network), ..blank })
}

fn followed_ids(query: &ScoredPostsQuery) -> (ids: HashSet<u64>)
    ensures
        ids@ == followed(*query),
{
    let list = &query.user_features.followed_user_ids;
    let ghost converted = list@.map_values(|id: i64| id as u64);
    let mut ids: HashSet<u64> = HashSet::new();
    let mut i: usize = 0;
    while i < list.len()
        invariant
            i <= list.len(),
            converted == list@.map_values(|id: i64| id as u64),
            ids@ == converted.take(i as int).to_set(),
        decreases list.len() - i,
    {
        ids.insert(list[i] as u64);
        proof {
            let seen = converted.take(i as int);
            assert(converted.take(i + 1) =~= seen.push(converted[i as int]));
            seen.lemma_push_to_set_commute(converted[i as int]);
        }
        i = i + 1;
    }
    assert(converted.take(i as int) =~= converted);
    ids
}

impl InNetworkCandidateHydrator {
    /// Whether each candidate comes from the network of the reader.
    pub fn hydrate(&self, query: &ScoredPostsQuery, candidates: &Vec<PostCandidate>) -> (result:
        Result<Vec<PostCandidate>, String>)
        ensures
            result matches Ok(hydrated) && hydrated@.len() == candidates@.len() && forall|i: int|
                0 <= i < hydrated@.len() ==> holds_network(
                    #[trigger] hydrated@[i],
                    is_in_network(*query, candidates@[i].author_id),
                ),
    {
        let viewer_id = query.user_id as u64;
        let followed_user_ids = followed_ids(query);
        let mut hydrated: Vec<PostCandidate> = Vec::with_capacity(candidates.len());
        let mut i: usize = 0;
        while i < candidates.len()
            invariant
                i <= candidates.len(),
                hydrated@.len() == i,
                forall|n: int|
                    0 <= n < i ==> holds_network(
                        #[trigger] hydrated@[n],
                        is_in_network(*query, candidates@[n].author_id),
                    ),
                viewer_id == query.user_id as u64,
                followed_user_ids@ == followed(*query),
            decreases candidates.len() - i,
        {
            let author_id = candidates[i].author_id;
            let in_network = author_id == viewer_id || followed_user_ids.contains(&author_id);
            let blank = PostCandidate::default();
            assert(blank.is_blank());
            hydrated.push(PostCandidate { in_network: Some(in_network), ..blank });
            i = i + 1;
        }
        Ok(hydrated)
    }
}

} // verus!

//! Removes repeated candidates.

use vstd::prelude::*;

use crate::candidate_pipeline::component::Component;
use crate::candidate_pipeline::filter::{is_split, split_by, Filter, FilterResult};
use crate::home_mixer::candidate::PostCandidate;
use crate::home_mixer::filters::common::{first_occurrences, flag_first_occurrences};
use crate::home_mixer::query::ScoredPostsQuery;

verus! {

/// Keeps the first candidate of each post.
pub struct DropDuplicatesFilter;

/// What a candidate is told apart by: the id of the post.
pub open spec fn post_key(candidate: PostCandidate) -> i128 {
    candidate.tweet_id as i128
}

impl Component<ScoredPostsQuery> for DropDuplicatesFilter {
    open spec fn is_enabled(&self, query: ScoredPostsQuery) -> bool {
        true
    }

    fn enable(&self, query: &ScoredPostsQuery) -> (enabled: bool) {
        true
    }

    fn name(&self) -> (name: &'static str)
        ensures
            name@ == "DropDuplicatesFilter"@,
    {
        "DropDuplicatesFilter"
    }
}

impl Filter<ScoredPostsQuery, PostCandidate> for DropDuplicatesFilter {
    type Evidence = ();

    open spec fn is_evidence(&self, candidates: Seq<PostCandidate>, evidence: ()) -> bool {
        true
    }

    fn filter(&self, query: &ScoredPostsQuery, candidates: Vec<PostCandidate>, evidence: &()) -> (
        result: Result<FilterResult<PostCandidate>, String>)
        ensures
            result matches Ok(parts) && is_split(
                parts,
                candidates@,
                first_occurrences(candidates@.map_values(|c: PostCandidate| post_key(c))),
            ),
    {
        let mut keys: Vec<i128> = Vec::with_capacity(candidates.len());
        let mut i: usize = 0;
        while i < candidates.len()
            invariant
                i <= candidates.len(),
                keys@.len() == i,
                forall|n: int| 0 <= n < i ==> #[trigger] keys@[n] == post_key(candidates@[n]),
            decreases candidates.len() - i,
        {
            let candidate = &candidates[i];
            keys.push(candidate.tweet_id as i128);
            i = i + 1;
        }
        assert(keys@ =~= candidates@.map_values(|c: PostCandidate| post_key(c)));
        let flags = flag_first_occurrences(&keys);
        Ok(split_by(candidates, &flags))
    }
}

} // verus!

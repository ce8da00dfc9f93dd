//! Removes repeated content.

use vstd::prelude::*;

use crate::candidate_pipeline::component::Component;
use crate::candidate_pipeline::filter::{is_split, split_by, Filter, FilterResult};
use crate::home_mixer::candidate::PostCandidate;
use crate::home_mixer::filters::common::{first_occurrences, flag_first_occurrences};
use crate::home_mixer::query::ScoredPostsQuery;

verus! {

/// Keeps the first occurrence of a post, whether as an original or as a retweet.
pub struct RetweetDeduplicationFilter;

/// The post whose content a candidate shows: the one that it repeats, or else itself.
pub open spec fn content_key(candidate: PostCandidate) -> i128 {
    match candidate.retweeted_tweet_id {
        Some(retweeted_id) => retweeted_id as i128,
        None => (candidate.tweet_id as u64) as i128,
    }
}

impl Component<ScoredPostsQuery> for RetweetDeduplicationFilter {
    open spec fn is_enabled(&self, query: ScoredPostsQuery) -> bool {
        true
    }

    fn enable(&self, query: &ScoredPostsQuery) -> (enabled: bool) {
        true
    }

    fn name(&self) -> (name: &'static str)
        ensures
            name@ == "RetweetDeduplicationFilter"@,
    {
        "RetweetDeduplicationFilter"
    }
}

impl Filter<ScoredPostsQuery, PostCandidate> for RetweetDeduplicationFilter {
    type Evidence = ();

    open spec fn is_evidence(&self, candidates: Seq<PostCandidate>, evidence: ()) -> bool {
        true
    }

    fn filter(&self, query: &ScoredPostsQuery, candidates: Vec<PostCandidate>, evidence: &()) -> (
        result: Result<FilterResult<PostCandidate>, String>)
        ensures
            result matches Ok(parts) && is_split(
                parts,
                candidates@,
                first_occurrences(candidates@.map_values(|c: PostCandidate| content_key(c))),
            ),
    {
        let mut keys: Vec<i128> = Vec::with_capacity(candidates.len());
        let mut i: usize = 0;
        while i < candidates.len()
            invariant
                i <= candidates.len(),
                keys@.len() == i,
                forall|n: int| 0 <= n < i ==> #[trigger] keys@[n] == content_key(candidates@[n]),
            decreases candidates.len() - i,
        {
            let candidate = &candidates[i];
            keys.push(
                match candidate.retweeted_tweet_id {
                    Some(retweeted_id) => retweeted_id as i128,
                    None => (candidate.tweet_id as u64) as i128,
                },
            );
            i = i + 1;
        }
        assert(keys@ =~= candidates@.map_values(|c: PostCandidate| content_key(c)));
        let flags = flag_first_occurrences(&keys);
        Ok(split_by(candidates, &flags))
    }
}

} // verus!

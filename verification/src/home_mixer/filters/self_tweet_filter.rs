//! Removes the reader's own posts.

use vstd::prelude::*;

use crate::candidate_pipeline::component::Component;
use crate::candidate_pipeline::filter::{is_split, split_by, Filter, FilterResult};
use crate::home_mixer::candidate::PostCandidate;
use crate::home_mixer::filters::common::{flag_each, kept_where};
use crate::home_mixer::query::ScoredPostsQuery;

verus! {

/// Removes the reader's own posts.
pub struct SelfTweetFilter;

/// Whether someone else than the reader is the author.
pub open spec fn is_by_another(query: ScoredPostsQuery, candidate: PostCandidate) -> bool {
    candidate.author_id != query.user_id as u64
}

impl Component<ScoredPostsQuery> for SelfTweetFilter {
    open spec fn is_enabled(&self, query: ScoredPostsQuery) -> bool {
        true
    }

    fn enable(&self, query: &ScoredPostsQuery) -> (enabled: bool) {
        true
    }

    fn name(&self) -> (name: &'static str)
        ensures
            name@ == "SelfTweetFilter"@,
    {
        "SelfTweetFilter"
    }
}

impl Filter<ScoredPostsQuery, PostCandidate> for SelfTweetFilter {
    type Evidence = ();

    open spec fn is_evidence(&self, candidates: Seq<PostCandidate>, evidence: ()) -> bool {
        true
    }

    fn filter(&self, query: &ScoredPostsQuery, candidates: Vec<PostCandidate>, evidence: &()) -> (
        result: Result<FilterResult<PostCandidate>, String>)
        ensures
            result matches Ok(parts) && is_split(
                parts,
                candidates@,
                kept_where(candidates@, |c: PostCandidate| is_by_another(*query, c)),
            ),
    {
        let keep = |c: &PostCandidate| -> (kept: bool)
            ensures
                kept == is_by_another(*query, *c),
            {
                c.author_id != query.user_id as u64
            };
        let flags = flag_each(
            &candidates,
            keep,
            Ghost(|c: PostCandidate| is_by_another(*query, c)),
        );
        Ok(split_by(candidates, &flags))
    }
}

} // verus!

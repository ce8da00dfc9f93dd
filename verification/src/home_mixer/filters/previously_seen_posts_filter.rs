//! Removes posts that the reader has seen.

use vstd::prelude::*;

use crate::candidate_pipeline::component::Component;
use crate::candidate_pipeline::filter::{is_split, split_by, Filter, FilterResult};
use crate::home_mixer::candidate::PostCandidate;
use crate::home_mixer::filters::common::holds_id;
use crate::home_mixer::query::ScoredPostsQuery;

verus! {

/// Removes posts that the reader has seen, by the ids that the request names and
/// by the filters of seen posts that it carries.
pub struct PreviouslySeenPostsFilter;

/// A post that a candidate shows or belongs to.
#[derive(Clone, Copy, Debug, PartialEq, Eq, Structural)]
pub struct RelatedPost {
    pub post_id: i64,
    /// Whether one of the request's filters of seen posts may hold it.
    pub may_be_seen: bool,
}

/// Whether the reader has seen the post, as far as the request tells.
pub open spec fn is_seen(query: ScoredPostsQuery, related: RelatedPost) -> bool {
    query.seen_ids@.contains(related.post_id) || related.may_be_seen
}

/// Whether the reader has seen none of the posts.
pub open spec fn is_unseen(query: ScoredPostsQuery, related: Seq<RelatedPost>) -> bool {
    forall|i: int| 0 <= i < related.len() ==> !is_seen(query, #[trigger] related[i])
}

fn unseen(query: &ScoredPostsQuery, related: &Vec<RelatedPost>) -> (unseen: bool)
    ensures
        unseen == is_unseen(*query, related@),
{
    let mut i: usize = 0;
    while i < related.len()
        invariant
            i <= related.len(),
            forall|n: int| 0 <= n < i ==> !is_seen(*query, #[trigger] related@[n]),
        decreases related.len() - i,
    {
        let post = related[i];
        if post.may_be_seen || holds_id(&query.seen_ids, post.post_id) {
            assert(is_seen(*query, related@[i as int]));
            return false;
        }
        i = i + 1;
    }
    true
}

impl Component<ScoredPostsQuery> for PreviouslySeenPostsFilter {
    open spec fn is_enabled(&self, query: ScoredPostsQuery) -> bool {
        true
    }

    fn enable(&self, query: &ScoredPostsQuery) -> (enabled: bool) {
        true
    }

    fn name(&self) -> (name: &'static str)
        ensures
            name@ == "PreviouslySeenPostsFilter"@,
    {
        "PreviouslySeenPostsFilter"
    }
}

impl Filter<ScoredPostsQuery, PostCandidate> for PreviouslySeenPostsFilter {
    /// The posts that each candidate shows or belongs to.
    type Evidence = Vec<Vec<RelatedPost>>;

    open spec fn is_evidence(
        &self,
        candidates: Seq<PostCandidate>,
        evidence: Vec<Vec<RelatedPost>>,
    ) -> bool {
        evidence@.len() == candidates.len()
    }

    fn filter(
        &self,
        query: &ScoredPostsQuery,
        candidates: Vec<PostCandidate>,
        evidence: &Vec<Vec<RelatedPost>>,
    ) -> (result: Result<FilterResult<PostCandidate>, String>)
        ensures
            result matches Ok(parts) && is_split(
                parts,
                candidates@,
                evidence@.map_values(|related: Vec<RelatedPost>| is_unseen(*query, related@)),
            ),
    {
        let mut flags: Vec<bool> = Vec::with_capacity(evidence.len());
        let mut i: usize = 0;
        while i < evidence.len()
            invariant
                i <= evidence.len(),
                flags@.len() == i,
                forall|n: int|
                    0 <= n < i ==> #[trigger] flags@[n] == is_unseen(*query, evidence@[n]@),
            decreases evidence.len() - i,
        {
            flags.push(unseen(query, &evidence[i]));
            i = i + 1;
        }
        assert(flags@ =~= evidence@.map_values(
            |related: Vec<RelatedPost>| is_unseen(*query, related@),
        ));
        Ok(split_by(candidates, &flags))
    }
}

} // verus!

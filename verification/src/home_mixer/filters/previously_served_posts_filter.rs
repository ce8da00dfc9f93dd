//! Removes posts that were handed out earlier.

use vstd::prelude::*;

use crate::candidate_pipeline::component::Component;
use crate::candidate_pipeline::filter::{is_split, split_by, Filter, FilterResult};
use crate::home_mixer::candidate::PostCandidate;
use crate::home_mixer::filters::common::holds_id;
use crate::home_mixer::query::ScoredPostsQuery;

verus! {

/// Removes posts that were handed out earlier. It takes part where the reader
/// scrolls on.
pub struct PreviouslyServedPostsFilter;

/// Whether none of the posts was handed out earlier.
pub open spec fn is_unserved(query: ScoredPostsQuery, related: Seq<i64>) -> bool {
    forall|i: int| 0 <= i < related.len() ==> !query.served_ids@.contains(#[trigger] related[i])
}

fn unserved(query: &ScoredPostsQuery, related: &Vec<i64>) -> (unserved: bool)
    ensures
        unserved == is_unserved(*query, related@),
{
    let mut i: usize = 0;
    while i < related.len()
        invariant
            i <= related.len(),
            forall|n: int| 0 <= n < i ==> !query.served_ids@.contains(#[trigger] related@[n]),
        decreases related.len() - i,
    {
        if holds_id(&query.served_ids, related[i]) {
            assert(query.served_ids@.contains(related@[i as int]));
            return false;
        }
        i = i + 1;
    }
    true
}

impl Component<ScoredPostsQuery> for PreviouslyServedPostsFilter {
    open spec fn is_enabled(&self, query: ScoredPostsQuery) -> bool {
        query.is_bottom_request
    }

    fn enable(&self, query: &ScoredPostsQuery) -> (enabled: bool) {
        query.is_bottom_request
    }

    fn name(&self) -> (name: &'static str)
        ensures
            name@ == "PreviouslyServedPostsFilter"@,
    {
        "PreviouslyServedPostsFilter"
    }
}

impl Filter<ScoredPostsQuery, PostCandidate> for PreviouslyServedPostsFilter {
    /// The posts that each candidate shows or belongs to.
    type Evidence = Vec<Vec<i64>>;

    open spec fn is_evidence(
        &self,
        candidates: Seq<PostCandidate>,
        evidence: Vec<Vec<i64>>,
    ) -> bool {
        evidence@.len() == candidates.len()
    }

    fn filter(
        &self,
        query: &ScoredPostsQuery,
        candidates: Vec<PostCandidate>,
        evidence: &Vec<Vec<i64>>,
    ) -> (result: Result<FilterResult<PostCandidate>, String>)
        ensures
            result matches Ok(parts) && is_split(
                parts,
                candidates@,
                evidence@.map_values(|related: Vec<i64>| is_unserved(*query, related@)),
            ),
    {
        let mut flags: Vec<bool> = Vec::with_capacity(evidence.len());
        let mut i: usize = 0;
        while i < evidence.len()
            invariant
                i <= evidence.len(),
                flags@.len() == i,
                forall|n: int|
                    0 <= n < i ==> #[trigger] flags@[n] == is_unserved(*query, evidence@[n]@),
            decreases evidence.len() - i,
        {
            flags.push(unserved(query, &evidence[i]));
            i = i + 1;
        }
        assert(flags@ =~= evidence@.map_values(
            |related: Vec<i64>| is_unserved(*query, related@),
        ));
        Ok(split_by(candidates, &flags))
    }
}

} // verus!

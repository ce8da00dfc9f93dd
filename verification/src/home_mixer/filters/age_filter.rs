//! Removes posts that are too old.

use vstd::prelude::*;

use crate::candidate_pipeline::component::Component;
use crate::candidate_pipeline::filter::{is_split, split_by, Filter, FilterResult};
use crate::home_mixer::candidate::PostCandidate;
use crate::home_mixer::query::ScoredPostsQuery;

verus! {

/// Removes posts older than `max_age` nanoseconds, and posts whose age cannot be
/// told.
pub struct AgeFilter {
    pub max_age: u128,
}

impl AgeFilter {
    /// A filter that removes posts older than `max_age` nanoseconds.
    pub fn new(max_age: u128) -> (filter: AgeFilter)
        ensures
            filter.max_age == max_age,
    {
        AgeFilter { max_age }
    }

    /// Whether a post of age `age` in nanoseconds is young enough.
    pub open spec fn allows(self, age: Option<u128>) -> bool {
        age matches Some(age) && age <= self.max_age
    }

    /// Whether a post of age `age` in nanoseconds is young enough; one whose age
    /// cannot be told is not.
    pub fn is_within_age(&self, age: Option<u128>) -> (within: bool)
        ensures
            within == self.allows(age),
    {
        match age {
            Some(age) => age <= self.max_age,
            None => false,
        }
    }
}

impl Component<ScoredPostsQuery> for AgeFilter {
    open spec fn is_enabled(&self, query: ScoredPostsQuery) -> bool {
        true
    }

    fn enable(&self, query: &ScoredPostsQuery) -> (enabled: bool) {
        true
    }

    fn name(&self) -> (name: &'static str)
        ensures
            name@ == "AgeFilter"@,
    {
        "AgeFilter"
    }
}

impl Filter<ScoredPostsQuery, PostCandidate> for AgeFilter {
    /// The age of each candidate in nanoseconds, where it can be told.
    type Evidence = Vec<Option<u128>>;

    open spec fn is_evidence(
        &self,
        candidates: Seq<PostCandidate>,
        evidence: Vec<Option<u128>>,
    ) -> bool {
        evidence@.len() == candidates.len()
    }

    fn filter(
        &self,
        query: &ScoredPostsQuery,
        candidates: Vec<PostCandidate>,
        evidence: &Vec<Option<u128>>,
    ) -> (result: Result<FilterResult<PostCandidate>, String>)
        ensures
            result matches Ok(parts) && is_split(
                parts,
                candidates@,
                evidence@.map_values(|age: Option<u128>| self.allows(age)),
            ),
    {
        let mut flags: Vec<bool> = Vec::with_capacity(evidence.len());
        let mut i: usize = 0;
        while i < evidence.len()
            invariant
                i <= evidence.len(),
                flags@.len() == i,
                forall|n: int| 0 <= n < i ==> #[trigger] flags@[n] == self.allows(evidence@[n]),
            decreases evidence.len() - i,
        {
            flags.push(self.is_within_age(evidence[i]));
            i = i + 1;
        }
        assert(flags@ =~= evidence@.map_values(|age: Option<u128>| self.allows(age)));
        Ok(split_by(candidates, &flags))
    }
}

} // verus!

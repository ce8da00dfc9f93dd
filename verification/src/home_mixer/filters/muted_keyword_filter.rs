//! Removes posts that hold a muted keyword.

use vstd::prelude::*;

use crate::candidate_pipeline::component::Component;
use crate::candidate_pipeline::filter::{is_split, split_by, Filter, FilterResult};
use crate::home_mixer::candidate::PostCandidate;
use crate::home_mixer::query::ScoredPostsQuery;

verus! {

/// Removes posts that hold a keyword that the reader has muted.
pub struct MutedKeywordFilter {
}

impl MutedKeywordFilter {
    /// A filter of muted keywords.
    pub fn new() -> (filter: MutedKeywordFilter)
        ensures
            filter == (MutedKeywordFilter {  }),
    {
        MutedKeywordFilter {  }
    }
}

impl Component<ScoredPostsQuery> for MutedKeywordFilter {
    open spec fn is_enabled(&self, query: ScoredPostsQuery) -> bool {
        true
    }

    fn enable(&self, query: &ScoredPostsQuery) -> (enabled: bool) {
        true
    }

    fn name(&self) -> (name: &'static str)
        ensures
            name@ == "MutedKeywordFilter"@,
    {
        "MutedKeywordFilter"
    }
}

/// Which candidates are kept: all of them where the reader mutes nothing, else
/// those that match none of the keywords.
pub open spec fn unmuted(query: ScoredPostsQuery, matches: Seq<bool>) -> Seq<bool> {
    matches.map_values(
        |matched: bool| query.user_features.muted_keywords@.len() == 0 || !matched,
    )
}

impl Filter<ScoredPostsQuery, PostCandidate> for MutedKeywordFilter {
    /// For each candidate whether its text matches one of the muted keywords.
    type Evidence = Vec<bool>;

    open spec fn is_evidence(&self, candidates: Seq<PostCandidate>, evidence: Vec<bool>) -> bool {
        evidence@.len() == candidates.len()
    }

    fn filter(
        &self,
        query: &ScoredPostsQuery,
        candidates: Vec<PostCandidate>,
        evidence: &Vec<bool>,
    ) -> (result: Result<FilterResult<PostCandidate>, String>)
        ensures
            result matches Ok(parts) && is_split(
                parts,
                candidates@,
                unmuted(*query, evidence@),
            ),
    {
        let mutes_nothing = query.user_features.muted_keywords.len() == 0;
        let mut flags: Vec<bool> = Vec::with_capacity(evidence.len());
        let mut i: usize = 0;
        while i < evidence.len()
            invariant
                i <= evidence.len(),
                mutes_nothing == (query.user_features.muted_keywords@.len() == 0),
                flags@.len() == i,
                forall|n: int|
                    0 <= n < i ==> #[trigger] flags@[n] == (mutes_nothing || !evidence@[n]),
            decreases evidence.len() - i,
        {
            flags.push(mutes_nothing || !evidence[i]);
            i = i + 1;
        }
        assert(flags@ =~= unmuted(*query, evidence@));
        Ok(split_by(candidates, &flags))
    }
}

} // verus!

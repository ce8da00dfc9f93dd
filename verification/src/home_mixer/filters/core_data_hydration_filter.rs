//! Removes posts whose central data is missing.

use vstd::prelude::*;

use crate::candidate_pipeline::component::Component;
use crate::candidate_pipeline::filter::{is_split, split_by, Filter, FilterResult};
use crate::home_mixer::candidate::PostCandidate;
use crate::home_mixer::filters::common::{flag_each, kept_where};
use crate::home_mixer::query::ScoredPostsQuery;
use crate::text::{is_blank, is_blank_text};

verus! {

/// Removes posts whose author or text is missing.
pub struct CoreDataHydrationFilter;

/// Whether the central data is there: an author, and a text that is more than white
/// space.
pub open spec fn has_core_data(candidate: PostCandidate) -> bool {
    candidate.author_id != 0 && !is_blank_text(candidate.tweet_text@)
}

impl Component<ScoredPostsQuery> for CoreDataHydrationFilter {
    open spec fn is_enabled(&self, query: ScoredPostsQuery) -> bool {
        true
    }

    fn enable(&self, query: &ScoredPostsQuery) -> (enabled: bool) {
        true
    }

    fn name(&self) -> (name: &'static str)
        ensures
            name@ == "CoreDataHydrationFilter"@,
    {
        "CoreDataHydrationFilter"
    }
}

impl Filter<ScoredPostsQuery, PostCandidate> for CoreDataHydrationFilter {
    type Evidence = ();

    open spec fn is_evidence(&self, candidates: Seq<PostCandidate>, evidence: ()) -> bool {
        true
    }

    fn filter(&self, query: &ScoredPostsQuery, candidates: Vec<PostCandidate>, evidence: &()) -> (
        result: Result<FilterResult<PostCandidate>, String>)
        ensures
            result matches Ok(parts) && is_split(
                parts,
                candidates@,
                kept_where(candidates@, |c: PostCandidate| has_core_data(c)),
            ),
    {
        let keep = |c: &PostCandidate| -> (kept: bool)
            ensures
                kept == has_core_data(*c),
            {
                c.author_id != 0 && !is_blank(c.tweet_text.as_str())
            };
        let flags = flag_each(
            &candidates,
            keep,
            Ghost(|c: PostCandidate| has_core_data(c)),
        );
        Ok(split_by(candidates, &flags))
    }
}

} // verus!

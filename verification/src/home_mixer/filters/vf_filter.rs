//! Removes posts that are not to be shown.

use vstd::prelude::*;

use crate::candidate_pipeline::component::Component;
use crate::candidate_pipeline::filter::{is_split, split_by, Filter, FilterResult};
use crate::home_mixer::candidate::PostCandidate;
use crate::home_mixer::filters::common::{flag_each, kept_where};
use crate::home_mixer::query::ScoredPostsQuery;
use crate::home_mixer::visibility::{Action, FilteredReason};

verus! {

/// Removes posts that are not to be shown.
pub struct VFFilter;

/// Whether a reason keeps a post from being shown: a safety rule that drops it,
/// or any reason that is not a safety rule.
pub open spec fn must_drop(reason: Option<FilteredReason>) -> bool {
    match reason {
        Some(FilteredReason::SafetyResult(safety_result)) => safety_result.action is Drop,
        Some(_) => true,
        None => false,
    }
}

/// Whether a reason keeps a post from being shown.
pub fn should_drop(reason: &Option<FilteredReason>) -> (drop: bool)
    ensures
        drop == must_drop(*reason),
{
    match reason {
        Some(FilteredReason::SafetyResult(safety_result)) => match safety_result.action {
            Action::Drop(_) => true,
            Action::Other(_) => false,
        },
        Some(_) => true,
        None => false,
    }
}

/// Whether nothing speaks against showing the post.
pub open spec fn is_visible(candidate: PostCandidate) -> bool {
    !must_drop(candidate.visibility_reason)
}

impl Component<ScoredPostsQuery> for VFFilter {
    open spec fn is_enabled(&self, query: ScoredPostsQuery) -> bool {
        true
    }

    fn enable(&self, query: &ScoredPostsQuery) -> (enabled: bool) {
        true
    }

    fn name(&self) -> (name: &'static str)
        ensures
            name@ == "VFFilter"@,
    {
        "VFFilter"
    }
}

impl Filter<ScoredPostsQuery, PostCandidate> for VFFilter {
    type Evidence = ();

    open spec fn is_evidence(&self, candidates: Seq<PostCandidate>, evidence: ()) -> bool {
        true
    }

    fn filter(&self, query: &ScoredPostsQuery, candidates: Vec<PostCandidate>, evidence: &()) -> (
        result: Result<FilterResult<PostCandidate>, String>)
        ensures
            result matches Ok(parts) && is_split(
                parts,
                candidates@,
                kept_where(candidates@, |c: PostCandidate| is_visible(c)),
            ),
    {
        let keep = |c: &PostCandidate| -> (kept: bool)
            ensures
                kept == is_visible(*c),
            {
                !should_drop(&c.visibility_reason)
            };
        let flags = flag_each(
            &candidates,
            keep,
            Ghost(|c: PostCandidate| is_visible(c)),
        );
        Ok(split_by(candidates, &flags))
    }
}

} // verus!

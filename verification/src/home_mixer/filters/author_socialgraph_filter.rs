//! Removes posts of authors that the reader has blocked or muted.

use vstd::prelude::*;

use crate::candidate_pipeline::component::Component;
use crate::candidate_pipeline::filter::{is_split, split_by, Filter, FilterResult};
use crate::home_mixer::candidate::PostCandidate;
use crate::home_mixer::filters::common::{flag_each, holds_id, kept_where};
use crate::home_mixer::query::ScoredPostsQuery;

verus! {

/// Removes posts of authors that the reader has blocked or muted.
pub struct AuthorSocialgraphFilter;

/// Whether the reader has neither blocked nor muted the author.
pub open spec fn is_welcome(query: ScoredPostsQuery, candidate: PostCandidate) -> bool {
    &&& !query.user_features.blocked_user_ids@.contains(candidate.author_id as i64)
    &&& !query.user_features.muted_user_ids@.contains(candidate.author_id as i64)
}

impl Component<ScoredPostsQuery> for AuthorSocialgraphFilter {
    open spec fn is_enabled(&self, query: ScoredPostsQuery) -> bool {
        true
    }

    fn enable(&self, query: &ScoredPostsQuery) -> (enabled: bool) {
        true
    }

    fn name(&self) -> (name: &'static str)
        ensures
            name@ == "AuthorSocialgraphFilter"@,
    {
        "AuthorSocialgraphFilter"
    }
}

impl Filter<ScoredPostsQuery, PostCandidate> for AuthorSocialgraphFilter {
    type Evidence = ();

    open spec fn is_evidence(&self, candidates: Seq<PostCandidate>, evidence: ()) -> bool {
        true
    }

    fn filter(&self, query: &ScoredPostsQuery, candidates: Vec<PostCandidate>, evidence: &()) -> (
        result: Result<FilterResult<PostCandidate>, String>)
        ensures
            result matches Ok(parts) && is_split(
                parts,
                candidates@,
                kept_where(candidates@, |c: PostCandidate| is_welcome(*query, c)),
            ),
    {
        let keep = |c: &PostCandidate| -> (kept: bool)
            ensures
                kept == is_welcome(*query, *c),
            {
                let author_id = c.author_id as i64;
                !holds_id(&query.user_features.muted_user_ids, author_id) && !holds_id(
                    &query.user_features.blocked_user_ids,
                    author_id,
                )
            };
        let flags = flag_each(
            &candidates,
            keep,
            Ghost(|c: PostCandidate| is_welcome(*query, c)),
        );
        Ok(split_by(candidates, &flags))
    }
}

} // verus!

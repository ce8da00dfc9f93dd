//! Removes posts for subscribers only.

use std::collections::HashSet;
use vstd::prelude::*;

use crate::candidate_pipeline::component::Component;
use crate::candidate_pipeline::filter::{is_split, split_by, Filter, FilterResult};
use crate::home_mixer::candidate::PostCandidate;
use crate::home_mixer::filters::common::{flag_each, kept_where};
use crate::home_mixer::query::ScoredPostsQuery;

verus! {

broadcast use vstd::std_specs::hash::group_hash_axioms;

/// Removes posts that are only for the subscribers of an author to whom the reader is
/// not subscribed.
pub struct IneligibleSubscriptionFilter;

/// The authors to whom the reader is subscribed.
pub open spec fn subscribed(query: ScoredPostsQuery) -> Set<u64> {
    query.user_features.subscribed_user_ids@.map_values(|id: i64| id as u64).to_set()
}

fn subscriptions(query: &ScoredPostsQuery) -> (authors: HashSet<u64>)
    ensures
        authors@ == subscribed(*query),
{
    let ids = &query.user_features.subscribed_user_ids;
    let ghost converted = ids@.map_values(|id: i64| id as u64);
    let mut authors: HashSet<u64> = HashSet::new();
    let mut i: usize = 0;
    while i < ids.len()
        invariant
            i <= ids.len(),
            converted == ids@.map_values(|id: i64| id as u64),
            authors@ == converted.take(i as int).to_set(),
        decreases ids.len() - i,
    {
        authors.insert(ids[i] as u64);
        proof {
            let seen = converted.take(i as int);
            assert(converted.take(i + 1) =~= seen.push(converted[i as int]));
            seen.lemma_push_to_set_commute(converted[i as int]);
        }
        i = i + 1;
    }
    assert(converted.take(i as int) =~= converted);
    authors
}

/// Whether the reader may read the post.
pub open spec fn is_readable(query: ScoredPostsQuery, candidate: PostCandidate) -> bool {
    match candidate.subscription_author_id {
        Some(author_id) => subscribed(query).contains(author_id),
        None => true,
    }
}

impl Component<ScoredPostsQuery> for IneligibleSubscriptionFilter {
    open spec fn is_enabled(&self, query: ScoredPostsQuery) -> bool {
        true
    }

    fn enable(&self, query: &ScoredPostsQuery) -> (enabled: bool) {
        true
    }

    fn name(&self) -> (name: &'static str)
        ensures
            name@ == "IneligibleSubscriptionFilter"@,
    {
        "IneligibleSubscriptionFilter"
    }
}

impl Filter<ScoredPostsQuery, PostCandidate> for IneligibleSubscriptionFilter {
    type Evidence = ();

    open spec fn is_evidence(&self, candidates: Seq<PostCandidate>, evidence: ()) -> bool {
        true
    }

    fn filter(&self, query: &ScoredPostsQuery, candidates: Vec<PostCandidate>, evidence: &()) -> (
        result: Result<FilterResult<PostCandidate>, String>)
        ensures
            result matches Ok(parts) && is_split(
                parts,
                candidates@,
                kept_where(candidates@, |c: PostCandidate| is_readable(*query, c)),
            ),
    {
        let subscribed_user_ids = subscriptions(query);
        let keep = |c: &PostCandidate| -> (kept: bool)
            ensures
                kept == is_readable(*query, *c),
            {
                match c.subscription_author_id {
                    Some(author_id) => subscribed_user_ids.contains(&author_id),
                    None => true,
                }
            };
        let flags = flag_each(
            &candidates,
            keep,
            Ghost(|c: PostCandidate| is_readable(*query, c)),
        );
        Ok(split_by(candidates, &flags))
    }
}

} // verus!

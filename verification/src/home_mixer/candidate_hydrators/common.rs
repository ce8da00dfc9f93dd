//! What the hydrators have in common.

use std::collections::HashMap;
use vstd::prelude::*;

use crate::home_mixer::candidate::PostCandidate;

verus! {

broadcast use vstd::std_specs::hash::group_hash_axioms;

/// The posts that the candidates show, in order.
pub open spec fn ids_of(candidates: Seq<PostCandidate>) -> Seq<i64> {
    candidates.map_values(|candidate: PostCandidate| candidate.tweet_id)
}

/// The posts that the candidates show, in order: what services are asked about.
pub fn tweet_ids(candidates: &Vec<PostCandidate>) -> (ids: Vec<i64>)
    ensures
        ids@ == ids_of(candidates@),
{
    let mut ids: Vec<i64> = Vec::with_capacity(candidates.len());
    let mut i: usize = 0;
    while i < candidates.len()
        invariant
            i <= candidates.len(),
            ids@.len() == i,
            forall|n: int| 0 <= n < i ==> #[trigger] ids@[n] == candidates@[n].tweet_id,
        decreases candidates.len() - i,
    {
        ids.push(candidates[i].tweet_id);
        i = i + 1;
    }
    assert(ids@ =~= ids_of(candidates@));
    ids
}

/// What an answer says about `id`: nothing where it does not name it.
pub open spec fn answer_for<V>(answer: Map<i64, Option<V>>, id: i64) -> Option<V> {
    if answer.contains_key(id) {
        answer[id]
    } else {
        None
    }
}

/// What an answer says about `id`.
pub fn look_up<V>(answer: &HashMap<i64, Option<V>>, id: i64) -> (found: Option<&V>)
    ensures
        (match found {
            Some(value) => answer_for(answer@, id) == Some(*value),
            None => answer_for(answer@, id) is None,
        }),
{
    match answer.get(&id) {
        Some(Some(value)) => Some(value),
        _ => None,
    }
}

} // verus!

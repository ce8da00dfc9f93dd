//! Keeps one post of each conversation.

use std::collections::HashMap;
use vstd::prelude::*;

use crate::candidate_pipeline::component::Component;
use crate::candidate_pipeline::filter::{Filter, FilterResult};
use crate::home_mixer::candidate::PostCandidate;
use crate::home_mixer::query::ScoredPostsQuery;
use crate::score::Score;
use crate::seqs::{first_of_each, reversed};

verus! {

broadcast use vstd::std_specs::hash::group_hash_axioms;

/// Keeps the highest-scored candidate of each conversation. It takes the place
/// of the first candidate of that conversation; of candidates with equal scores
/// the first is kept.
pub struct DedupConversationFilter;

/// The least of `ids`.
pub open spec fn least(ids: Seq<u64>) -> u64
    recommends
        ids.len() > 0,
    decreases ids.len(),
{
    if ids.len() <= 1 {
        ids[0]
    } else {
        let before = least(ids.drop_last());
        if ids.last() < before {
            ids.last()
        } else {
            before
        }
    }
}

/// The conversation that a candidate belongs to: the oldest post above it, which
/// has the least id, or else the candidate's own post.
pub open spec fn conversation_of(candidate: PostCandidate) -> u64 {
    if candidate.ancestors@.len() == 0 {
        candidate.tweet_id as u64
    } else {
        least(candidate.ancestors@)
    }
}

/// The score of a candidate; zero where it has none.
pub open spec fn score_of(candidate: PostCandidate) -> Score {
    match candidate.score {
        Some(score) => score,
        None => Score { bits: 0 },
    }
}

/// The conversation that a candidate belongs to.
pub fn get_conversation_id(candidate: &PostCandidate) -> (id: u64)
    ensures
        id == conversation_of(*candidate),
{
    let ancestors = &candidate.ancestors;
    if ancestors.len() == 0 {
        return candidate.tweet_id as u64;
    }
    let mut id = ancestors[0];
    let mut i: usize = 1;
    while i < ancestors.len()
        invariant
            1 <= i <= ancestors.len(),
            id == least(ancestors@.take(i as int)),
        decreases ancestors.len() - i,
    {
        assert(ancestors@.take(i + 1).drop_last() =~= ancestors@.take(i as int));
        if ancestors[i] < id {
            id = ancestors[i];
        }
        i = i + 1;
    }
    assert(ancestors@.take(i as int) =~= ancestors@);
    id
}

/// The place of conversation `id` among `kept`.
pub open spec fn is_slot(kept: Seq<PostCandidate>, id: u64, slot: int) -> bool {
    0 <= slot < kept.len() && conversation_of(kept[slot]) == id
}

/// What is kept and removed once one more candidate is looked at.
pub open spec fn with_candidate(
    before: (Seq<PostCandidate>, Seq<PostCandidate>),
    candidate: PostCandidate,
) -> (Seq<PostCandidate>, Seq<PostCandidate>) {
    let id = conversation_of(candidate);
    if exists|slot: int| is_slot(before.0, id, slot) {
        let slot = choose|slot: int| is_slot(before.0, id, slot);
        if score_of(candidate).exceeds(score_of(before.0[slot])) {
            (before.0.update(slot, candidate), before.1.push(before.0[slot]))
        } else {
            (before.0, before.1.push(candidate))
        }
    } else {
        (before.0.push(candidate), before.1)
    }
}

/// What is kept and what is removed of `candidates`.
pub open spec fn deduplicated(candidates: Seq<PostCandidate>) -> (
    Seq<PostCandidate>,
    Seq<PostCandidate>,
)
    decreases candidates.len(),
{
    if candidates.len() == 0 {
        (Seq::empty(), Seq::empty())
    } else {
        with_candidate(deduplicated(candidates.drop_last()), candidates.last())
    }
}

/// No conversation is kept twice.
pub open spec fn is_unique(kept: Seq<PostCandidate>) -> bool {
    forall|i: int, j: int|
        0 <= i < kept.len() && 0 <= j < kept.len() && conversation_of(#[trigger] kept[i])
            == conversation_of(#[trigger] kept[j]) ==> i == j
}

/// No conversation is kept twice.
pub proof fn law_conversations_are_kept_once(candidates: Seq<PostCandidate>)
    ensures
        is_unique(deduplicated(candidates).0),
    decreases candidates.len(),
{
    if candidates.len() > 0 {
        law_conversations_are_kept_once(candidates.drop_last());
        let before = deduplicated(candidates.drop_last()).0;
        let candidate = candidates.last();
        let id = conversation_of(candidate);
        let after = deduplicated(candidates).0;
        assert forall|i: int, j: int|
            0 <= i < after.len() && 0 <= j < after.len() && conversation_of(#[trigger] after[i])
                == conversation_of(#[trigger] after[j]) implies i == j by {
            if exists|slot: int| is_slot(before, id, slot) {
                let slot = choose|slot: int| is_slot(before, id, slot);
                if i != slot {
                    assert(after[i] == before[i]);
                }
                if j != slot {
                    assert(after[j] == before[j]);
                }
                assert(conversation_of(before[i]) == conversation_of(before[j]));
            } else {
                if i < before.len() {
                    assert(!is_slot(before, id, i));
                }
                if j < before.len() {
                    assert(!is_slot(before, id, j));
                }
            }
        }
    }
}

/// Every candidate is either kept or removed.
pub proof fn lemma_deduplication_is_partition(candidates: Seq<PostCandidate>)
    ensures
        deduplicated(candidates).0.to_multiset().add(deduplicated(candidates).1.to_multiset())
            =~= candidates.to_multiset(),
    decreases candidates.len(),
{
    broadcast use vstd::seq_lib::group_to_multiset_ensures;

    if candidates.len() > 0 {
        let front = candidates.drop_last();
        lemma_deduplication_is_partition(front);
        let before = deduplicated(front);
        let candidate = candidates.last();
        let id = conversation_of(candidate);
        assert(candidates =~= front.push(candidate));
        if exists|slot: int| is_slot(before.0, id, slot) {
            let slot = choose|slot: int| is_slot(before.0, id, slot);
            vstd::seq_lib::lemma_update_is_remove_insert(before.0, slot, candidate);
            assert(before.0.remove(slot).insert(slot, candidate).to_multiset()
                =~= before.0.update(slot, candidate).to_multiset());
            assert(before.0.remove(slot).to_multiset() =~= before.0.to_multiset().remove(
                before.0[slot],
            ));
            assert(before.0.to_multiset().count(before.0[slot]) > 0) by {
                assert(before.0.contains(before.0[slot]));
            }
        }
    } else {
        assert(Seq::<PostCandidate>::empty().to_multiset().add(
            Seq::<PostCandidate>::empty().to_multiset(),
        ) =~= candidates.to_multiset());
    }
}

/// Of every conversation, no candidate beats the one that is kept.
pub proof fn law_best_of_each_conversation_is_kept(candidates: Seq<PostCandidate>, i: int)
    requires
        0 <= i < candidates.len(),
        forall|n: int|
            0 <= n < candidates.len() ==> !score_of(#[trigger] candidates[n]).is_nan(),
    ensures
        exists|slot: int|
            is_slot(deduplicated(candidates).0, conversation_of(candidates[i]), slot)
                && !score_of(candidates[i]).exceeds(
                score_of(#[trigger] deduplicated(candidates).0[slot]),
            ),
        forall|slot: int|
            0 <= slot < deduplicated(candidates).0.len() ==> !score_of(
                #[trigger] deduplicated(candidates).0[slot],
            ).is_nan(),
    decreases candidates.len(),
{
    let front = candidates.drop_last();
    let before = deduplicated(front);
    let after = deduplicated(candidates);
    let candidate = candidates.last();
    let id = conversation_of(candidate);
    assert forall|n: int| 0 <= n < front.len() implies !score_of(#[trigger] front[n]).is_nan() by {
        assert(!score_of(candidates[n]).is_nan());
    }
    assert(!score_of(candidates[candidates.len() - 1]).is_nan());
    if front.len() > 0 {
        law_best_of_each_conversation_is_kept(front, 0);
    }
    if i < front.len() {
        law_best_of_each_conversation_is_kept(front, i);
        let old_slot = choose|slot: int|
            is_slot(before.0, conversation_of(front[i]), slot) && !score_of(front[i]).exceeds(
                score_of(#[trigger] before.0[slot]),
            );
        if exists|slot: int| is_slot(before.0, id, slot) {
            let slot = choose|slot: int| is_slot(before.0, id, slot);
            if old_slot != slot {
                assert(after.0[old_slot] == before.0[old_slot]);
            }
            assert(is_slot(after.0, conversation_of(candidates[i]), old_slot));
            assert(!score_of(candidates[i]).exceeds(score_of(after.0[old_slot])));
        } else {
            assert(after.0[old_slot] == before.0[old_slot]);
            assert(is_slot(after.0, conversation_of(candidates[i]), old_slot));
        }
    } else {
        if exists|slot: int| is_slot(before.0, id, slot) {
            let slot = choose|slot: int| is_slot(before.0, id, slot);
            assert(is_slot(after.0, id, slot));
            assert(!score_of(candidates[i]).exceeds(score_of(after.0[slot])));
        } else {
            let slot = before.0.len() as int;
            assert(after.0[slot] == candidate);
            assert(is_slot(after.0, id, slot));
        }
    }
    assert forall|slot: int| 0 <= slot < after.0.len() implies !score_of(
        #[trigger] after.0[slot],
    ).is_nan() by {
        if exists|s: int| is_slot(before.0, id, s) {
            let s = choose|s: int| is_slot(before.0, id, s);
            if slot != s {
                assert(after.0[slot] == before.0[slot]);
            }
        } else if slot < before.0.len() {
            assert(after.0[slot] == before.0[slot]);
        }
    }
}

/// Conversations are kept in the order in which they first appear.
pub proof fn law_conversations_keep_their_order(candidates: Seq<PostCandidate>)
    ensures
        deduplicated(candidates).0.map_values(|c: PostCandidate| conversation_of(c))
            == first_of_each(candidates.map_values(|c: PostCandidate| conversation_of(c))),
    decreases candidates.len(),
{
    let id_of = |c: PostCandidate| conversation_of(c);
    let kept = deduplicated(candidates).0;
    if candidates.len() > 0 {
        let front = candidates.drop_last();
        law_conversations_keep_their_order(front);
        let before = deduplicated(front).0;
        let id = conversation_of(candidates.last());
        assert(candidates.map_values(id_of).drop_last() =~= front.map_values(id_of));
        if exists|slot: int| is_slot(before, id, slot) {
            let slot = choose|slot: int| is_slot(before, id, slot);
            assert(before.map_values(id_of)[slot] == id);
            assert(kept.map_values(id_of) =~= before.map_values(id_of));
        } else {
            if before.map_values(id_of).contains(id) {
                let slot = before.map_values(id_of).index_of(id);
                assert(is_slot(before, id, slot));
            }
            assert(kept.map_values(id_of) =~= before.map_values(id_of).push(id));
        }
    } else {
        assert(kept.map_values(id_of) =~= first_of_each(candidates.map_values(id_of)));
    }
}

/// `place` is where the first of the best candidates of its conversation stands.
pub open spec fn is_first_of_the_best(candidates: Seq<PostCandidate>, place: int) -> bool {
    &&& 0 <= place < candidates.len()
    &&& forall|n: int|
        0 <= n < place && conversation_of(#[trigger] candidates[n]) == conversation_of(
            candidates[place],
        ) ==> score_of(candidates[place]).exceeds(score_of(candidates[n]))
    &&& forall|n: int|
        place < n < candidates.len() && conversation_of(#[trigger] candidates[n])
            == conversation_of(candidates[place]) ==> !score_of(candidates[n]).exceeds(
            score_of(candidates[place]),
        )
}

/// Where every score is a number, the candidate that is kept of a conversation is
/// the first of the best: it beats every one before it, and none after it beats it.
pub proof fn law_first_of_the_best_is_kept(candidates: Seq<PostCandidate>, slot: int) -> (place:
    int)
    requires
        0 <= slot < deduplicated(candidates).0.len(),
        forall|n: int|
            0 <= n < candidates.len() ==> !score_of(#[trigger] candidates[n]).is_nan(),
    ensures
        is_first_of_the_best(candidates, place),
        deduplicated(candidates).0[slot] == candidates[place],
    decreases candidates.len(),
{
    let front = candidates.drop_last();
    let before = deduplicated(front).0;
    let last = candidates.len() - 1;
    let candidate = candidates[last];
    let id = conversation_of(candidate);
    assert forall|n: int| 0 <= n < front.len() implies !score_of(#[trigger] front[n]).is_nan() by {
        assert(!score_of(candidates[n]).is_nan());
    }
    law_conversations_are_kept_once(front);
    if slot < before.len() {
        let place = law_first_of_the_best_is_kept(front, slot);
        assert(front[place] == candidates[place]);
        if conversation_of(before[slot]) == id {
            assert(is_slot(before, id, slot));
            assert forall|n: int|
                0 <= n < last && conversation_of(#[trigger] candidates[n]) == id implies score_of(
                candidates[n],
            ).rank() <= score_of(candidates[place]).rank() by {
                assert(front[n] == candidates[n]);
            }
            if score_of(candidate).exceeds(score_of(before[slot])) {
                assert(is_first_of_the_best(candidates, last));
                last
            } else {
                assert forall|n: int|
                    0 <= n < place && conversation_of(#[trigger] candidates[n]) == conversation_of(
                        candidates[place],
                    ) implies score_of(candidates[place]).exceeds(score_of(candidates[n])) by {
                    assert(front[n] == candidates[n]);
                }
                place
            }
        } else {
            if exists|s: int| is_slot(before, id, s) {
                let s = choose|s: int| is_slot(before, id, s);
                assert(s != slot);
            }
            assert(deduplicated(candidates).0[slot] == before[slot]);
            assert forall|n: int|
                0 <= n < place && conversation_of(#[trigger] candidates[n]) == conversation_of(
                    candidates[place],
                ) implies score_of(candidates[place]).exceeds(score_of(candidates[n])) by {
                assert(front[n] == candidates[n]);
            }
            assert forall|n: int|
                place < n < candidates.len() && conversation_of(#[trigger] candidates[n])
                    == conversation_of(candidates[place]) implies !score_of(
                candidates[n],
            ).exceeds(score_of(candidates[place])) by {
                if n < last {
                    assert(front[n] == candidates[n]);
                }
            }
            place
        }
    } else {
        assert forall|n: int| 0 <= n < last implies conversation_of(#[trigger] candidates[n])
            != id by {
            law_best_of_each_conversation_is_kept(front, n);
            assert(front[n] == candidates[n]);
        }
        last
    }
}

/// Filtering what was kept once more removes nothing.
pub proof fn law_conversations_are_settled_by_one_run(candidates: Seq<PostCandidate>)
    ensures
        deduplicated(deduplicated(candidates).0) == (
            deduplicated(candidates).0,
            Seq::<PostCandidate>::empty(),
        ),
{
    law_conversations_are_kept_once(candidates);
    lemma_unique_candidates_stay(deduplicated(candidates).0);
}

proof fn lemma_unique_candidates_stay(candidates: Seq<PostCandidate>)
    requires
        is_unique(candidates),
    ensures
        deduplicated(candidates) == (candidates, Seq::<PostCandidate>::empty()),
    decreases candidates.len(),
{
    if candidates.len() > 0 {
        let front = candidates.drop_last();
        let id = conversation_of(candidates.last());
        assert(is_unique(front)) by {
            assert forall|i: int, j: int|
                0 <= i < front.len() && 0 <= j < front.len() && conversation_of(#[trigger] front[i])
                    == conversation_of(#[trigger] front[j]) implies i == j by {
                assert(front[i] == candidates[i] && front[j] == candidates[j]);
            }
        }
        lemma_unique_candidates_stay(front);
        if exists|slot: int| is_slot(front, id, slot) {
            let slot = choose|slot: int| is_slot(front, id, slot);
            assert(front[slot] == candidates[slot]);
            assert(candidates[candidates.len() - 1] == candidates.last());
        }
        assert(front.push(candidates.last()) =~= candidates);
    } else {
        assert(candidates =~= Seq::empty());
    }
}

impl Component<ScoredPostsQuery> for DedupConversationFilter {
    open spec fn is_enabled(&self, query: ScoredPostsQuery) -> bool {
        true
    }

    fn enable(&self, query: &ScoredPostsQuery) -> (enabled: bool) {
        true
    }

    fn name(&self) -> (name: &'static str)
        ensures
            name@ == "DedupConversationFilter"@,
    {
        "DedupConversationFilter"
    }
}

/// `best_per_convo` knows the place and the score of every conversation kept.
spec fn is_index(
    best_per_convo: Map<u64, (usize, Score)>,
    kept: Seq<PostCandidate>,
) -> bool {
    &&& forall|id: u64| #[trigger]
        best_per_convo.contains_key(id) ==> is_slot(kept, id, best_per_convo[id].0 as int)
            && best_per_convo[id].1 == score_of(kept[best_per_convo[id].0 as int])
    &&& forall|slot: int|
        0 <= slot < kept.len() ==> best_per_convo.contains_key(
            conversation_of(#[trigger] kept[slot]),
        )
}

impl Filter<ScoredPostsQuery, PostCandidate> for DedupConversationFilter {
    type Evidence = ();

    open spec fn is_evidence(&self, candidates: Seq<PostCandidate>, evidence: ()) -> bool {
        true
    }

    fn filter(&self, query: &ScoredPostsQuery, candidates: Vec<PostCandidate>, evidence: &()) -> (
        result: Result<FilterResult<PostCandidate>, String>)
        ensures
            result matches Ok(parts) && (parts.kept@, parts.removed@) == deduplicated(candidates@),
    {
        let ghost all = candidates@;
        let mut kept: Vec<PostCandidate> = Vec::new();
        let mut removed: Vec<PostCandidate> = Vec::new();
        let mut best_per_convo: HashMap<u64, (usize, Score)> = HashMap::new();
        let mut upcoming = reversed(candidates);
        let ghost mut i: int = 0;
        assert(all.take(0) =~= Seq::empty());
        while upcoming.len() > 0
            invariant
                0 <= i <= all.len(),
                upcoming@.len() == all.len() - i,
                forall|n: int|
                    0 <= n < upcoming@.len() ==> #[trigger] upcoming@[n] == all[all.len() - 1 - n],
                (kept@, removed@) == deduplicated(all.take(i)),
                is_index(best_per_convo@, kept@),
            decreases upcoming@.len(),
        {
            proof {
                assert(all.take(i + 1).drop_last() =~= all.take(i));
                law_conversations_are_kept_once(all.take(i));
            }
            let ghost before = kept@;
            let ghost index = best_per_convo@;
            if let Some(candidate) = upcoming.pop() {
                assert(candidate == all[i]);
                let conversation_id = get_conversation_id(&candidate);
                let score = match candidate.score {
                    Some(score) => score,
                    None => Score::zero(),
                };
                let found = match best_per_convo.get(&conversation_id) {
                    Some(best) => Some(*best),
                    None => None,
                };
                match found {
                    Some((slot, best_score)) => {
                        proof {
                            assert(is_slot(before, conversation_id, slot as int));
                            let chosen = choose|s: int| is_slot(before, conversation_id, s);
                            assert(conversation_of(before[chosen]) == conversation_of(
                                before[slot as int],
                            ));
                            assert(chosen == slot);
                        }
                        if score.is_greater_than(&best_score) {
                            let mut swapped = candidate;
                            std::mem::swap(&mut kept[slot], &mut swapped);
                            removed.push(swapped);
                            best_per_convo.insert(conversation_id, (slot, score));
                            assert(kept@ =~= before.update(slot as int, all[i]));
                            assert(is_index(best_per_convo@, kept@)) by {
                                lemma_index_after_update(
                                    index,
                                    before,
                                    slot,
                                    all[i],
                                );
                            }
                        } else {
                            removed.push(candidate);
                        }
                    },
                    None => {
                        proof {
                            assert(!exists|s: int| is_slot(before, conversation_id, s)) by {
                                assert forall|s: int| !is_slot(before, conversation_id, s) by {
                                    if is_slot(before, conversation_id, s) {
                                        assert(index.contains_key(conversation_of(before[s])));
                                    }
                                }
                            }
                        }
                        let slot = kept.len();
                        best_per_convo.insert(conversation_id, (slot, score));
                        kept.push(candidate);
                        assert(is_index(best_per_convo@, kept@)) by {
                            assert forall|id: u64| #[trigger]
                                best_per_convo@.contains_key(id) implies is_slot(
                                kept@,
                                id,
                                best_per_convo@[id].0 as int,
                            ) && best_per_convo@[id].1 == score_of(
                                kept@[best_per_convo@[id].0 as int],
                            ) by {
                                if id != conversation_id {
                                    assert(index.contains_key(id));
                                }
                            }
                            assert forall|s: int|
                                0 <= s < kept@.len() implies best_per_convo@.contains_key(
                                conversation_of(#[trigger] kept@[s]),
                            ) by {
                                if s < before.len() {
                                    assert(kept@[s] == before[s]);
                                    assert(index.contains_key(conversation_of(before[s])));
                                }
                            }
                        }
                    },
                }
            }
            proof {
                i = i + 1;
            }
        }
        proof {
            assert(all.take(i) =~= all);
            lemma_deduplication_is_partition(all);
        }
        Ok(FilterResult { kept, removed })
    }
}

proof fn lemma_index_after_update(
    index: Map<u64, (usize, Score)>,
    kept: Seq<PostCandidate>,
    slot: usize,
    candidate: PostCandidate,
)
    requires
        is_index(index, kept),
        is_unique(kept),
        is_slot(kept, conversation_of(candidate), slot as int),
    ensures
        is_index(
            index.insert(conversation_of(candidate), (slot, score_of(candidate))),
            kept.update(slot as int, candidate),
        ),
{
    let id = conversation_of(candidate);
    let after = kept.update(slot as int, candidate);
    let new_index = index.insert(id, (slot, score_of(candidate)));
    assert forall|other: u64| #[trigger] new_index.contains_key(other) implies is_slot(
        after,
        other,
        new_index[other].0 as int,
    ) && new_index[other].1 == score_of(after[new_index[other].0 as int]) by {
        if other != id {
            assert(index.contains_key(other));
            let place = index[other].0 as int;
            assert(conversation_of(kept[place]) == other);
            assert(place != slot);
        }
    }
    assert forall|s: int| 0 <= s < after.len() implies new_index.contains_key(
        conversation_of(#[trigger] after[s]),
    ) by {
        if s != slot {
            assert(after[s] == kept[s]);
            assert(index.contains_key(conversation_of(kept[s])));
        }
    }
}

} // verus!

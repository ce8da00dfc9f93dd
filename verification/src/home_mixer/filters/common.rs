//! What the filters have in common.

use std::collections::HashSet;
use vstd::prelude::*;

use crate::home_mixer::candidate::PostCandidate;

verus! {

broadcast use vstd::std_specs::hash::group_hash_axioms;

/// What `keep` says of each candidate.
pub open spec fn kept_where(
    candidates: Seq<PostCandidate>,
    keep: spec_fn(PostCandidate) -> bool,
) -> Seq<bool> {
    candidates.map_values(keep)
}

/// Asks `keep` of each candidate.
pub(crate) fn flag_each<F: Fn(&PostCandidate) -> bool>(
    candidates: &Vec<PostCandidate>,
    keep: F,
    Ghost(wanted): Ghost<spec_fn(PostCandidate) -> bool>,
) -> (flags: Vec<bool>)
    requires
        forall|c: &PostCandidate| #[trigger] call_requires(keep, (c,)),
        forall|c: &PostCandidate, kept: bool| #[trigger]
            call_ensures(keep, (c,), kept) ==> kept == wanted(*c),
    ensures
        flags@ == kept_where(candidates@, wanted),
{
    let mut flags: Vec<bool> = Vec::with_capacity(candidates.len());
    let mut i: usize = 0;
    while i < candidates.len()
        invariant
            i <= candidates.len(),
            forall|c: &PostCandidate| #[trigger] call_requires(keep, (c,)),
            forall|c: &PostCandidate, kept: bool| #[trigger]
                call_ensures(keep, (c,), kept) ==> kept == wanted(*c),
            flags@.len() == i,
            forall|n: int| 0 <= n < i ==> #[trigger] flags@[n] == wanted(candidates@[n]),
        decreases candidates.len() - i,
    {
        let kept = keep(&candidates[i]);
        flags.push(kept);
        i = i + 1;
    }
    assert(flags@ =~= kept_where(candidates@, wanted));
    flags
}

/// Whether `ids` holds `id`.
pub fn holds_id(ids: &Vec<i64>, id: i64) -> (found: bool)
    ensures
        found == ids@.contains(id),
{
    let mut i: usize = 0;
    while i < ids.len()
        invariant
            i <= ids.len(),
            forall|n: int| 0 <= n < i ==> #[trigger] ids@[n] != id,
        decreases ids.len() - i,
    {
        if ids[i] == id {
            assert(ids@[i as int] == id);
            return true;
        }
        i = i + 1;
    }
    false
}

/// Whether `keys[i]` is the first of its value.
pub open spec fn is_first_occurrence(keys: Seq<i128>, i: int) -> bool {
    forall|j: int| 0 <= j < i ==> #[trigger] keys[j] != keys[i]
}

/// For each position whether its key is the first of its value.
pub open spec fn first_occurrences(keys: Seq<i128>) -> Seq<bool> {
    Seq::new(keys.len(), |i: int| is_first_occurrence(keys, i))
}

/// For each position whether its key is the first of its value.
pub(crate) fn flag_first_occurrences(keys: &Vec<i128>) -> (flags: Vec<bool>)
    ensures
        flags@ == first_occurrences(keys@),
{
    let mut seen: HashSet<i128> = HashSet::new();
    let mut flags: Vec<bool> = Vec::with_capacity(keys.len());
    let mut i: usize = 0;
    while i < keys.len()
        invariant
            i <= keys.len(),
            flags@.len() == i,
            forall|n: int| 0 <= n < i ==> #[trigger] flags@[n] == is_first_occurrence(keys@, n),
            forall|key: i128| #[trigger]
                seen@.contains(key) <==> exists|n: int| 0 <= n < i && keys@[n] == key,
        decreases keys.len() - i,
    {
        let key = keys[i];
        let ghost before = seen@;
        let is_new = seen.insert(key);
        proof {
            assert(is_new == is_first_occurrence(keys@, i as int));
            assert forall|other: i128| #[trigger] seen@.contains(other) <==> exists|n: int|
                0 <= n < i + 1 && keys@[n] == other by {
                if before.contains(other) {
                    let n = choose|n: int| 0 <= n < i && keys@[n] == other;
                    assert(keys@[n] == other);
                }
                if other == key {
                    assert(keys@[i as int] == other);
                }
            }
        }
        flags.push(is_new);
        i = i + 1;
    }
    assert(flags@ =~= first_occurrences(keys@));
    flags
}

} // verus!

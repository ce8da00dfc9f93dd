//! Components that decide which candidates go on.

use vstd::prelude::*;

use crate::candidate_pipeline::component::Component;
use crate::seqs::reversed;

verus! {

/// The candidates that a filter keeps, and those that it removes.
#[derive(Debug)]
pub struct FilterResult<C> {
    pub kept: Vec<C>,
    pub removed: Vec<C>,
}

impl<C> FilterResult<C> {
    /// Every one of `candidates` is either kept or removed: none is lost, none
    /// is made up.
    pub open spec fn is_partition_of(&self, candidates: Seq<C>) -> bool {
        self.kept@.to_multiset().add(self.removed@.to_multiset()) =~= candidates.to_multiset()
    }
}

/// A component that decides which candidates go on.
pub trait Filter<Q, C>: Component<Q> {
    /// What the filter has to be told besides the query and the candidates.
    type Evidence;

    /// Whether `evidence` speaks of `candidates`.
    spec fn is_evidence(&self, candidates: Seq<C>, evidence: Self::Evidence) -> bool;

    /// Parts `candidates` into those that are kept and those that are removed.
    /// Where the filter itself fails it says why.
    fn filter(&self, query: &Q, candidates: Vec<C>, evidence: &Self::Evidence) -> (result: Result<
        FilterResult<C>,
        String,
    >)
        requires
            self.is_evidence(candidates@, *evidence),
        ensures
            result matches Ok(parts) ==> parts.is_partition_of(candidates@),
    ;
}

/// The elements of `s` at the positions where `flags` is `wanted`, in order.
pub open spec fn selected<C>(s: Seq<C>, flags: Seq<bool>, wanted: bool) -> Seq<C>
    decreases s.len(),
{
    if s.len() == 0 || flags.len() != s.len() {
        Seq::empty()
    } else {
        let before = selected(s.drop_last(), flags.drop_last(), wanted);
        if flags.last() == wanted {
            before.push(s.last())
        } else {
            before
        }
    }
}

/// What is kept and what is removed where `flags` says which candidates to keep.
pub open spec fn is_split<C>(parts: FilterResult<C>, candidates: Seq<C>, flags: Seq<bool>) -> bool {
    &&& parts.kept@ == selected(candidates, flags, true)
    &&& parts.removed@ == selected(candidates, flags, false)
}

/// Splitting by flags is a partition.
pub proof fn lemma_split_is_partition<C>(candidates: Seq<C>, flags: Seq<bool>)
    requires
        candidates.len() == flags.len(),
    ensures
        selected(candidates, flags, true).to_multiset().add(
            selected(candidates, flags, false).to_multiset(),
        ) =~= candidates.to_multiset(),
        selected(candidates, flags, true).len() + selected(candidates, flags, false).len()
            == candidates.len(),
    decreases candidates.len(),
{
    broadcast use vstd::seq_lib::group_to_multiset_ensures;

    if candidates.len() > 0 {
        let front = candidates.drop_last();
        lemma_split_is_partition(front, flags.drop_last());
        assert(candidates =~= front.push(candidates.last()));
    }
}

/// Parts `candidates` by `flags`, which says which of them to keep.
pub fn split_by<C>(candidates: Vec<C>, flags: &Vec<bool>) -> (parts: FilterResult<C>)
    requires
        candidates@.len() == flags@.len(),
    ensures
        is_split(parts, candidates@, flags@),
        parts.is_partition_of(candidates@),
{
    let ghost all = candidates@;
    let mut kept: Vec<C> = Vec::new();
    let mut removed: Vec<C> = Vec::new();
    let mut upcoming = reversed(candidates);
    let mut i: usize = 0;
    while i < flags.len()
        invariant
            i <= flags.len(),
            flags@.len() == all.len(),
            upcoming@.len() == all.len() - i,
            forall|n: int|
                0 <= n < upcoming@.len() ==> #[trigger] upcoming@[n] == all[all.len() - 1 - n],
            kept@ == selected(all.take(i as int), flags@.take(i as int), true),
            removed@ == selected(all.take(i as int), flags@.take(i as int), false),
        decreases flags.len() - i,
    {
        proof {
            assert(all.take(i + 1).drop_last() =~= all.take(i as int));
            assert(flags@.take(i + 1).drop_last() =~= flags@.take(i as int));
        }
        if let Some(candidate) = upcoming.pop() {
            assert(candidate == all[i as int]);
            if flags[i] {
                kept.push(candidate);
            } else {
                removed.push(candidate);
            }
        }
        i = i + 1;
    }
    proof {
        assert(all.take(i as int) =~= all);
        assert(flags@.take(i as int) =~= flags@);
        lemma_split_is_partition(all, flags@);
    }
    FilterResult { kept, removed }
}

} // verus!

//! Components that fill in fields of candidates.

use vstd::prelude::*;

use crate::candidate_pipeline::component::{merged_all, Component};

verus! {

/// A component that fills in fields of candidates. What it finds out comes back
/// as one candidate for each that it was given, in the same order; `update`
/// takes over the fields that the component is responsible for, and no others.
pub trait Hydrator<Q, C>: Component<Q> + Sized {
    /// `candidate` with the fields of this component taken from `hydrated`.
    spec fn updated(&self, candidate: C, hydrated: C) -> C;

    /// Takes the fields of this component from `hydrated`.
    fn update(&self, candidate: &mut C, hydrated: C)
        ensures
            *final(candidate) == self.updated(*old(candidate), hydrated),
    ;

    /// Updates each candidate from the one at its position in `hydrated`.
    fn update_all(&self, candidates: &mut Vec<C>, hydrated: Vec<C>)
        ensures
            final(candidates)@ == merged_all(
                old(candidates)@,
                hydrated@,
                |candidate: C, hydrated: C| self.updated(candidate, hydrated),
            ),
    {
        let ghost before = candidates@;
        let ghost all = hydrated@;
        let mut hydrated = hydrated;
        while hydrated.len() > 0
            invariant
                candidates@.len() == before.len(),
                hydrated@.len() <= all.len(),
                hydrated@ == all.take(hydrated@.len() as int),
                forall|i: int|
                    0 <= i < before.len() ==> #[trigger] candidates@[i] == if hydrated@.len() <= i
                        < all.len() {
                        self.updated(before[i], all[i])
                    } else {
                        before[i]
                    },
            decreases hydrated@.len(),
        {
            let ghost rest = hydrated@;
            if let Some(last) = hydrated.pop() {
                assert(last == all[rest.len() - 1]);
                let i = hydrated.len();
                if i < candidates.len() {
                    self.update(&mut candidates[i], last);
                }
            }
            assert(hydrated@ =~= all.take(hydrated@.len() as int));
        }
        assert(candidates@ =~= merged_all(
            before,
            all,
            |candidate: C, hydrated: C| self.updated(candidate, hydrated),
        ));
    }
}

} // verus!

//! Components that score candidates.

use vstd::prelude::*;

use crate::candidate_pipeline::component::{merged_all, Component};

verus! {

/// A component that scores candidates. What it finds out comes back as one
/// candidate for each that it was given, in the same order; `update` takes over
/// the scores that the component is responsible for, and nothing else.
pub trait Scorer<Q, C>: Component<Q> + Sized {
    /// `candidate` with the scores of this component taken from `scored`.
    spec fn updated(&self, candidate: C, scored: C) -> C;

    /// Takes the scores of this component from `scored`.
    fn update(&self, candidate: &mut C, scored: C)
        ensures
            *final(candidate) == self.updated(*old(candidate), scored),
    ;

    /// Updates each candidate from the one at its position in `scored`.
    fn update_all(&self, candidates: &mut Vec<C>, scored: Vec<C>)
        ensures
            final(candidates)@ == merged_all(
                old(candidates)@,
                scored@,
                |candidate: C, scored: C| self.updated(candidate, scored),
            ),
    {
        let ghost before = candidates@;
        let ghost all = scored@;
        let mut scored = scored;
        while scored.len() > 0
            invariant
                candidates@.len() == before.len(),
                scored@.len() <= all.len(),
                scored@ == all.take(scored@.len() as int),
                forall|i: int|
                    0 <= i < before.len() ==> #[trigger] candidates@[i] == if scored@.len() <= i
                        < all.len() {
                        self.updated(before[i], all[i])
                    } else {
                        before[i]
                    },
            decreases scored@.len(),
        {
            let ghost rest = scored@;
            if let Some(last) = scored.pop() {
                assert(last == all[rest.len() - 1]);
                let i = scored.len();
                if i < candidates.len() {
                    self.update(&mut candidates[i], last);
                }
            }
            assert(scored@ =~= all.take(scored@.len() as int));
        }
        assert(candidates@ =~= merged_all(
            before,
            all,
            |candidate: C, scored: C| self.updated(candidate, scored),
        ));
    }
}

} // verus!

//! Components that fill in fields of the query.

use vstd::prelude::*;

use crate::candidate_pipeline::component::Component;

verus! {

/// A component that fills in fields of the query. `update` takes over the fields
/// that the component is responsible for, and no others.
pub trait QueryHydrator<Q>: Component<Q> {
    /// `query` with the fields of this component taken from `hydrated`.
    spec fn updated(&self, query: Q, hydrated: Q) -> Q;

    /// Takes the fields of this component from `hydrated`.
    fn update(&self, query: &mut Q, hydrated: Q)
        ensures
            *final(query) == self.updated(*old(query), hydrated),
    ;
}

} // verus!

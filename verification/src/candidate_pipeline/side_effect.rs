//! Components that act on a result without changing it.

use std::sync::Arc;
use vstd::prelude::*;

use crate::candidate_pipeline::component::Component;

verus! {

/// What a side effect is given: the query and the candidates that were selected.
pub struct SideEffectInput<Q, C> {
    pub query: Arc<Q>,
    pub selected_candidates: Vec<C>,
}

/// A component that acts on a result without changing it.
pub trait SideEffect<Q, C>: Component<Q> {

}

} // verus!

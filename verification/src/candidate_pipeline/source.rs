//! Components that bring candidates in.

use vstd::prelude::*;

use crate::candidate_pipeline::component::Component;

verus! {

/// A component that brings candidates of type `C` in.
pub trait Source<Q, C>: Component<Q> {

}

} // verus!

//! What the components of a pipeline have in common.

use vstd::prelude::*;

verus! {

/// A value that can be copied.
pub trait Duplicable: Sized {
    /// Whether this value holds the same as `original`.
    spec fn is_copy_of(self, original: Self) -> bool;

    /// A second value that holds the same.
    fn duplicate(&self) -> (copy: Self)
        ensures
            copy.is_copy_of(*self),
    ;
}

/// `copies` holds a copy of each of `originals`, in order.
pub open spec fn are_copies<T: Duplicable>(copies: Seq<T>, originals: Seq<T>) -> bool {
    &&& copies.len() == originals.len()
    &&& forall|i: int| 0 <= i < copies.len() ==> (#[trigger] copies[i]).is_copy_of(originals[i])
}

/// A copy of each of `items`, in order.
pub fn duplicate_all<T: Duplicable>(items: &Vec<T>) -> (copies: Vec<T>)
    ensures
        are_copies(copies@, items@),
{
    let mut copies: Vec<T> = Vec::with_capacity(items.len());
    let mut i: usize = 0;
    while i < items.len()
        invariant
            i <= items.len(),
            copies@.len() == i,
            forall|n: int| 0 <= n < i ==> (#[trigger] copies@[n]).is_copy_of(items@[n]),
        decreases items.len() - i,
    {
        copies.push(items[i].duplicate());
        i = i + 1;
    }
    copies
}

/// Each of `items` merged with the one at its position in `others`, as far as
/// both reach.
pub open spec fn merged_all<C>(items: Seq<C>, others: Seq<C>, merge: spec_fn(C, C) -> C) -> Seq<C> {
    Seq::new(
        items.len(),
        |i: int|
            if i < others.len() {
                merge(items[i], others[i])
            } else {
                items[i]
            },
    )
}

/// A component of a pipeline for queries of type `Q`.
pub trait Component<Q> {
    /// Whether the component takes part in answering `query`.
    spec fn is_enabled(&self, query: Q) -> bool;

    /// Whether the component takes part in answering `query`.
    fn enable(&self, query: &Q) -> (enabled: bool)
        ensures
            enabled == self.is_enabled(*query),
    ;

    /// The name of the component in logs.
    fn name(&self) -> &'static str;
}

/// The positions of the components that take part, in order.
pub open spec fn enabled_positions<Q, T: Component<Q>>(components: Seq<T>, query: Q) -> Seq<usize>
    decreases components.len(),
{
    if components.len() == 0 {
        Seq::empty()
    } else {
        let before = enabled_positions(components.drop_last(), query);
        if components.last().is_enabled(query) {
            before.push((components.len() - 1) as usize)
        } else {
            before
        }
    }
}

/// The positions of the components that take part, in order.
pub fn find_enabled<Q, T: Component<Q>>(components: &Vec<T>, query: &Q) -> (positions: Vec<usize>)
    ensures
        positions@ == enabled_positions(components@, *query),
        forall|i: int| 0 <= i < positions@.len() ==> #[trigger] positions@[i] < components@.len(),
{
    let mut positions: Vec<usize> = Vec::new();
    let mut i: usize = 0;
    assert(components@.take(0) =~= Seq::empty());
    while i < components.len()
        invariant
            i <= components.len(),
            positions@ == enabled_positions(components@.take(i as int), *query),
            forall|n: int|
                0 <= n < positions@.len() ==> #[trigger] positions@[n] < components@.len(),
        decreases components.len() - i,
    {
        assert(components@.take(i + 1).drop_last() =~= components@.take(i as int));
        if components[i].enable(query) {
            positions.push(i);
        }
        i = i + 1;
    }
    assert(components@.take(i as int) =~= components@);
    positions
}

} // verus!

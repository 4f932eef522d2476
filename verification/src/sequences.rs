//! Sequences of events, seen through the views of their items.

use vstd::prelude::*;

verus! {

/// The views of the items of a sequence, in order.
pub open spec fn views<T: View>(items: Seq<T>) -> Seq<T::V> {
    items.map_values(|item: T| item@)
}

/// Appending an item appends its view.
pub proof fn lemma_views_push<T: View>(items: Seq<T>, item: T)
    ensures
        views(items.push(item)) == views(items).push(item@),
{
}

/// The views of no items are no views.
pub proof fn lemma_views_empty<T: View>()
    ensures
        views(Seq::<T>::empty()) == Seq::<T::V>::empty(),
{
}

} // verus!

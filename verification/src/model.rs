//! Helpers with which contracts speak of collections by the values of their
//! items.
use vstd::prelude::*;

verus! {

/// The values of the items of a sequence, in order.
pub open spec fn views<T: View>(s: Seq<T>) -> Seq<T::V> {
    Seq::new(s.len(), |i: int| s[i]@)
}

/// Adding an item to a sequence adds its value to the values.
pub proof fn lemma_views_push<T: View>(s: Seq<T>, item: T)
    ensures
        views(s.push(item)) == views(s).push(item@),
{
    assert(views(s.push(item)) =~= views(s).push(item@));
}

} // verus!

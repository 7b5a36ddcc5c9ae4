//! Element-wise views of sequences.

use vstd::prelude::*;

verus! {

/// The views of the elements of `s`, in order.
pub open spec fn views<T: View>(s: Seq<T>) -> Seq<T::V> {
    Seq::new(s.len(), |i: int| s[i]@)
}

/// The empty sequence has no views.
pub proof fn lemma_views_empty<T: View>()
    ensures
        views(Seq::<T>::empty()) == Seq::<T::V>::empty(),
{
    assert(views(Seq::<T>::empty()) =~= Seq::<T::V>::empty());
}

/// The views of a sequence with one more element are the views of the
/// sequence and the view of the element.
pub proof fn lemma_views_push<T: View>(s: Seq<T>, x: T)
    ensures
        views(s.push(x)) == views(s).push(x@),
{
    assert(views(s.push(x)) =~= views(s).push(x@));
}

/// The views of a sequence without its last element are its views without
/// the last, which is the view of that element.
pub proof fn lemma_views_drop_last<T: View>(s: Seq<T>)
    requires
        s.len() > 0,
    ensures
        views(s.drop_last()) == views(s).drop_last(),
        views(s).last() == s.last()@,
{
    assert(views(s.drop_last()) =~= views(s).drop_last());
}

} // verus!

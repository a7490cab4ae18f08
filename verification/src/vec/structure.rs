//! The contract of a growable vector.

use vstd::prelude::*;

verus! {

/// An integer-indexed collection that grows and shrinks at its end.
///
/// The model of a vector is the sequence of its items.
pub trait VecStructure<T> {
    /// The vector is in a state in which its operations may be called.
    spec fn wf(&self) -> bool;

    /// The items, first to last.
    spec fn view(&self) -> Seq<T>;

    /// The greatest number of items that a vector of this type holds.
    spec fn spec_max_len() -> nat;

    /// Returns the greatest number of items that a vector of this type
    /// holds.
    fn max_len() -> (max: u64)
        ensures
            max == Self::spec_max_len(),
    ;

    /// Returns whether the vector holds no item.
    fn is_empty(&self) -> (empty: bool)
        requires
            self.wf(),
        ensures
            empty == (self@.len() == 0),
    ;

    /// Removes all the items.
    fn clear(&mut self)
        requires
            old(self).wf(),
        ensures
            final(self).wf(),
            final(self)@ == Seq::<T>::empty(),
    ;

    /// Returns the number of items.
    fn len(&self) -> (len: u64)
        requires
            self.wf(),
        ensures
            len == self@.len(),
    ;

    /// Replaces the item at `index` by `item`.
    fn set(&mut self, index: u64, item: &T)
        requires
            old(self).wf(),
            index < old(self)@.len(),
        ensures
            final(self).wf(),
            final(self)@ == old(self)@.update(index as int, *item),
    ;

    /// Returns the item at `index`, or nothing past the end.
    fn get(&self, index: u64) -> (item: Option<T>)
        requires
            self.wf(),
        ensures
            item == if index < self@.len() {
                Some(self@[index as int])
            } else {
                None
            },
    ;

    /// Appends `item`.
    fn push(&mut self, item: &T)
        requires
            old(self).wf(),
            old(self)@.len() < Self::spec_max_len(),
        ensures
            final(self).wf(),
            final(self)@ == old(self)@.push(*item),
    ;

    /// Removes the last item and returns it, or nothing from an empty vector.
    fn pop(&mut self) -> (item: Option<T>)
        requires
            old(self).wf(),
        ensures
            final(self).wf(),
            old(self)@.len() == 0 ==> item is None && final(self)@ == old(self)@,
            old(self)@.len() > 0 ==> item == Some(old(self)@.last()) && final(self)@ == old(
                self,
            )@.drop_last(),
    ;
}

} // verus!

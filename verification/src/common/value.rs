//! Values that a collection can hand out more than once.

use vstd::prelude::*;

verus! {

/// A value that can be copied with its meaning kept: the copy has the view
/// of the value it was made from.
pub trait Value: View + Sized {
    /// Returns a copy of the value.
    fn duplicate(&self) -> (copy: Self)
        ensures
            copy@ == self@,
    ;
}

impl Value for u64 {
    fn duplicate(&self) -> (copy: Self) {
        *self
    }
}

impl Value for Vec<u8> {
    fn duplicate(&self) -> (copy: Self) {
        let copy = self.clone();
        assert(copy@ =~= self@);
        copy
    }
}

impl Value for String {
    fn duplicate(&self) -> (copy: Self) {
        self.clone()
    }
}

} // verus!

//! The contract of a cell that holds one value.

use std::borrow::Cow;
use vstd::prelude::*;

verus! {

/// A place that holds exactly one value of type `T`.
///
/// The model of a cell is the view of the value it holds.
pub trait CellStructure<T: View + Clone> {
    /// The cell is in a state in which its operations may be called.
    spec fn wf(&self) -> bool;

    /// The view of the value that the cell holds.
    spec fn view(&self) -> T::V;

    /// Whether a value is one that a cell of this type can store.
    spec fn spec_accepts(value: T::V) -> bool;

    /// Returns the current value in the cell.
    fn get(&self) -> (value: Cow<'_, T>)
        requires
            self.wf(),
        ensures
            value@ == self@,
    ;

    /// Updates the current value in the cell.
    fn set(&mut self, value: T)
        requires
            old(self).wf(),
            Self::spec_accepts(value@),
        ensures
            final(self).wf(),
            final(self)@ == value@,
    ;
}

} // verus!

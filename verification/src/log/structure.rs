//! The contract of an append-only log.

use vstd::prelude::*;

verus! {

/// Why an entry could not be appended.
#[derive(Clone, Copy, Debug, PartialEq, Eq, Structural)]
pub enum LogWriteError {
    /// A memory region of `current_size` pages could not grow by `delta`
    /// pages.
    GrowFailed { current_size: u64, delta: u64 },
}

/// A list of values that grows at its end only.
///
/// The model of a log is the sequence of the views of its entries.
pub trait LogStructure<T: View> {
    /// The log is in a state in which its operations may be called.
    spec fn wf(&self) -> bool;

    /// The views of the entries, first to last.
    spec fn view(&self) -> Seq<T::V>;

    /// Returns the entry at `index`, or nothing past the end.
    fn get(&self, index: u64) -> (value: Option<T>)
        requires
            self.wf(),
        ensures
            match value {
                Some(v) => index < self@.len() && v@ == self@[index as int],
                None => index >= self@.len(),
            },
    ;

    /// Appends `value` and returns its index. Where the regions of the
    /// log cannot grow, nothing is appended and the error says so.
    fn append(&mut self, value: T) -> (index: Result<u64, LogWriteError>)
        requires
            old(self).wf(),
        ensures
            final(self).wf(),
            match index {
                Ok(i) => i == old(self)@.len() && final(self)@ == old(self)@.push(value@),
                Err(_) => final(self)@ == old(self)@,
            },
    ;

    /// Number of values in the log.
    fn len(&self) -> (len: u64)
        requires
            self.wf(),
        ensures
            len == self@.len(),
    ;

    /// Returns whether the log holds no value.
    fn is_empty(&self) -> (empty: bool)
        requires
            self.wf(),
        ensures
            empty == (self@.len() == 0),
    ;

    /// Removes all items from the log.
    fn clear(&mut self)
        requires
            old(self).wf(),
        ensures
            final(self).wf(),
            final(self)@ == Seq::<T::V>::empty(),
    ;
}

} // verus!

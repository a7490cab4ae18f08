//! The ring buffer over a vector of physical slots and a cell that holds
//! the index record.

use crate::cell::stable::StableCell;
use crate::cell::structure::CellStructure;
use crate::cell::versioned::VersionedStableCell;
use crate::common::codec::cow_into_owned;
use crate::ringbuffer::indices::{ring_slot, StableRingBufferIndices};
use crate::ringbuffer::model::{spec_evicted, spec_push, spec_resize, spec_truncate};
use crate::vec::ext::VecExt;
use crate::vec::structure::VecStructure;
use crate::common::memory::Region;
use std::marker::PhantomData;
use vstd::prelude::*;

verus! {

/// The cell that keeps an index record as its 24 bytes in a memory region.
pub type StableIndicesCell = VersionedStableCell<StableRingBufferIndices, Vec<u8>, StableCell>;

/// A first-in first-out buffer of at most `capacity` elements.
///
/// The elements live in the slots of `data`; `indices` says which slots
/// form the logical window. Slots outside the window may hold stale
/// elements, which are never read.
pub struct StableRingBuffer<
    T,
    D: VecStructure<T>,
    C: CellStructure<StableRingBufferIndices>,
> {
    /// Vector with the physical slots.
    data: D,
    /// Where the first element is and how many there are.
    indices: C,
    phantom_t: PhantomData<T>,
}

/// For a window that starts inside the ring and an offset of at most one
/// turn, the slot is found by one conditional subtraction.
pub proof fn lemma_ring_slot(start: int, offset: int, capacity: int)
    requires
        capacity >= 1,
        0 <= start < capacity,
        0 <= offset <= capacity,
    ensures
        ring_slot(start, offset, capacity) == if start + offset < capacity {
            start + offset
        } else {
            start + offset - capacity
        },
{
    if start + offset < capacity {
        vstd::arithmetic::div_mod::lemma_small_mod((start + offset) as nat, capacity as nat);
    } else {
        vstd::arithmetic::div_mod::lemma_small_mod(
            (start + offset - capacity) as nat,
            capacity as nat,
        );
        vstd::arithmetic::div_mod::lemma_mod_sub_multiples_vanish(start + offset, capacity);
    }
}

/// The elements of the window that `indices` describes over the slots
/// `slots`, oldest first.
pub open spec fn spec_window<T>(slots: Seq<T>, indices: StableRingBufferIndices) -> Seq<T> {
    Seq::new(
        indices.spec_len() as nat,
        |i: int|
            slots[ring_slot(indices.spec_start() as int, i, indices.spec_capacity() as int)],
    )
}

/// Whether `indices` describes a window over a vector of `slots` slots:
/// the record is valid, there are no more slots than the capacity, and
/// every slot of the window exists. A window that does not start at slot
/// 0 has wrapped, so that all the slots exist.
pub open spec fn spec_consistent(slots: nat, indices: StableRingBufferIndices) -> bool {
    &&& indices.wf()
    &&& slots <= indices.spec_capacity()
    &&& if indices.spec_start() == 0 {
        indices.spec_len() <= slots
    } else {
        slots == indices.spec_capacity()
    }
}

/// Whether a push needs a new slot: the slot behind the window is the one
/// behind the last slot.
pub open spec fn spec_push_grows<T>(slots: Seq<T>, indices: StableRingBufferIndices) -> bool {
    indices.spec_offset_to_index(indices.spec_len()) == slots.len()
}

/// The slots after a push: the new element goes to the slot behind the
/// window, which is the slot of the oldest element where the buffer is
/// full, and a new slot where the window ends at the last slot.
pub open spec fn spec_slots_after_push<T>(
    slots: Seq<T>,
    indices: StableRingBufferIndices,
    value: T,
) -> Seq<T> {
    let slot = indices.spec_offset_to_index(indices.spec_len());
    if slot == slots.len() {
        slots.push(value)
    } else {
        slots.update(slot as int, value)
    }
}

impl StableRingBuffer<u64, VecExt, StableIndicesCell> {
    /// Creates an empty buffer of `default_history_size` slots in two
    /// memory regions, whatever they held: one for the elements and one
    /// for the index record.
    pub fn new(
        data_memory: Region,
        indices_memory: Region,
        default_history_size: u64,
    ) -> (buffer: Self)
        requires
            default_history_size >= 1,
        ensures
            buffer.wf(),
            buffer@ == Seq::<u64>::empty(),
            buffer.spec_capacity() == default_history_size,
            buffer.spec_slots() == Seq::<u64>::empty(),
            buffer.spec_indices().spec_start() == 0,
            buffer.spec_indices().spec_len() == 0,
    {
        let indices = StableRingBufferIndices::new(default_history_size);
        proof {
            lemma_indices_accepted();
            assert(StableIndicesCell::spec_accepts(indices));
        }
        let buffer = Self {
            data: VecExt::new(data_memory),
            indices: VersionedStableCell::new(indices_memory, indices),
            phantom_t: PhantomData,
        };
        assert(buffer@ =~= Seq::<u64>::empty());
        buffer
    }
}

/// A cell of bytes stores every index record: a record takes 24 bytes.
pub proof fn lemma_indices_accepted()
    ensures
        forall|i: StableRingBufferIndices| StableIndicesCell::spec_accepts(i),
{
    assert forall|i: StableRingBufferIndices| StableIndicesCell::spec_accepts(i) by {
        StableRingBufferIndices::lemma_bytes_round_trip(i);
    }
}

impl<T, D: VecStructure<T>, C: CellStructure<StableRingBufferIndices>> StableRingBuffer<T, D, C> {
    /// The buffer is in a state in which its operations may be called.
    pub closed spec fn wf(&self) -> bool {
        &&& self.data.wf()
        &&& self.indices.wf()
        &&& spec_consistent(self.data@.len(), self.indices@)
        &&& self.data@.len() <= D::spec_max_len()
        &&& forall|i: StableRingBufferIndices| C::spec_accepts(i)
    }

    /// The physical slots, with what they hold inside and outside the
    /// window.
    pub closed spec fn spec_slots(&self) -> Seq<T> {
        self.data@
    }

    /// The index record.
    pub closed spec fn spec_indices(&self) -> StableRingBufferIndices {
        self.indices@
    }

    /// The elements of the buffer, oldest first.
    pub open spec fn view(&self) -> Seq<T> {
        spec_window(self.spec_slots(), self.spec_indices())
    }

    /// The greatest number of elements that the buffer holds.
    pub open spec fn spec_capacity(&self) -> u64 {
        self.spec_indices().spec_capacity()
    }

    /// A well-formed buffer holds no more elements than its capacity,
    /// which is at least one; its index record describes a window over
    /// its slots, and there are no more slots than the vector holds.
    pub proof fn lemma_len_bounded(&self)
        requires
            self.wf(),
        ensures
            self@.len() <= self.spec_capacity(),
            self.spec_capacity() >= 1,
            self.spec_slots().len() <= D::spec_max_len(),
            spec_consistent(self.spec_slots().len(), self.spec_indices()),
    {
    }

    /// Whether the next push can be made: where it needs a new slot, the
    /// vector of slots can still grow.
    pub open spec fn spec_can_push(&self) -> bool {
        spec_push_grows(self.spec_slots(), self.spec_indices()) ==> self.spec_slots().len()
            < D::spec_max_len()
    }

    /// A buffer whose capacity is no more than the vector of slots holds
    /// can always be pushed to.
    pub proof fn lemma_can_push(&self)
        requires
            self.wf(),
            self.spec_capacity() <= D::spec_max_len(),
        ensures
            self.spec_can_push(),
    {
        let indices = self.spec_indices();
        lemma_ring_slot(
            indices.spec_start() as int,
            indices.spec_len() as int,
            indices.spec_capacity() as int,
        );
    }

    /// Builds a buffer from a vector of slots and a cell with the index
    /// record that describes a window over them.
    pub fn new_with(data: D, indices: C) -> (buffer: Self)
        requires
            data.wf(),
            indices.wf(),
            spec_consistent(data@.len(), indices@),
            data@.len() <= D::spec_max_len(),
            forall|i: StableRingBufferIndices| C::spec_accepts(i),
        ensures
            buffer.wf(),
            buffer.spec_slots() == data@,
            buffer.spec_indices() == indices@,
    {
        Self { data, indices, phantom_t: PhantomData }
    }

    /// Builds a buffer from a vector of slots and a cell with an index
    /// record if the record describes a window over the slots, and gives
    /// both back if it does not.
    pub fn try_new_with(data: D, indices: C) -> (buffer: Result<Self, (D, C)>)
        requires
            data.wf(),
            indices.wf(),
            forall|i: StableRingBufferIndices| C::spec_accepts(i),
        ensures
            match buffer {
                Ok(b) => {
                    &&& spec_consistent(data@.len(), indices@)
                    &&& data@.len() <= D::spec_max_len()
                    &&& b.wf()
                    &&& b.spec_slots() == data@
                    &&& b.spec_indices() == indices@
                },
                Err(parts) => {
                    &&& !(spec_consistent(data@.len(), indices@) && data@.len()
                        <= D::spec_max_len())
                    &&& parts == (data, indices)
                },
            },
    {
        let record: StableRingBufferIndices = cow_into_owned(indices.get());
        let slots: u64 = data.len();
        let fits: bool = record.is_valid() && slots <= record.capacity() && slots
            <= D::max_len() && if record.start() == 0 {
            record.len() <= slots
        } else {
            slots == record.capacity()
        };
        if fits {
            Ok(Self { data, indices, phantom_t: PhantomData })
        } else {
            Err((data, indices))
        }
    }

    /// Takes the buffer apart and gives back the vector of slots and the
    /// cell with the index record.
    pub fn into_parts(self) -> (parts: (D, C))
        requires
            self.wf(),
        ensures
            parts.0.wf(),
            parts.1.wf(),
            parts.0@ == self.spec_slots(),
            parts.1@ == self.spec_indices(),
            spec_consistent(parts.0@.len(), parts.1@),
    {
        (self.data, self.indices)
    }

    /// Removes all elements in the buffer. The capacity stays.
    pub fn clear(&mut self)
        requires
            old(self).wf(),
        ensures
            final(self).wf(),
            final(self)@ == Seq::<T>::empty(),
            final(self).spec_capacity() == old(self).spec_capacity(),
            final(self).spec_slots() == Seq::<T>::empty(),
            final(self).spec_indices().spec_start() == 0,
            final(self).spec_indices().spec_len() == 0,
    {
        let current: StableRingBufferIndices = cow_into_owned(self.indices.get());
        let indices = StableRingBufferIndices::new(current.capacity());
        self.data.clear();
        self.indices.set(indices);
        assert(self@ =~= Seq::<T>::empty());
    }

    /// Number of elements in the buffer.
    pub fn len(&self) -> (len: u64)
        requires
            self.wf(),
        ensures
            len == self@.len(),
    {
        cow_into_owned(self.indices.get()).len()
    }

    /// Returns whether the buffer holds no element.
    pub fn is_empty(&self) -> (empty: bool)
        requires
            self.wf(),
        ensures
            empty == (self@.len() == 0),
    {
        cow_into_owned(self.indices.get()).len() == 0
    }

    /// Max capacity of the buffer.
    pub fn capacity(&self) -> (capacity: u64)
        requires
            self.wf(),
        ensures
            capacity == self.spec_capacity(),
            capacity >= 1,
    {
        cow_into_owned(self.indices.get()).capacity()
    }

    /// Returns whether the next push can be made.
    pub fn can_push(&self) -> (ok: bool)
        requires
            self.wf(),
        ensures
            ok == self.spec_can_push(),
    {
        let indices: StableRingBufferIndices = cow_into_owned(self.indices.get());
        let slots: u64 = self.data.len();
        indices.offset_to_index(indices.len()) != slots || slots < D::max_len()
    }

    /// Updates the capacity of the buffer to `new_capacity`. The elements
    /// that do not fit are deleted, oldest first.
    ///
    /// The elements that stay are copied: the cost grows with their number.
    pub fn resize(&mut self, new_capacity: u64)
        requires
            old(self).wf(),
            new_capacity >= 1,
        ensures
            final(self).wf(),
            final(self).spec_capacity() == new_capacity,
            final(self)@ == spec_resize(old(self)@, new_capacity as nat),
            new_capacity >= old(self)@.len() ==> final(self)@ == old(self)@,
            new_capacity == old(self).spec_capacity() ==> {
                &&& final(self).spec_slots() == old(self).spec_slots()
                &&& final(self).spec_indices() == old(self).spec_indices()
            },
            new_capacity != old(self).spec_capacity() ==> {
                &&& final(self).spec_slots() == final(self)@
                &&& final(self).spec_indices().spec_start() == 0
            },
    {
        let mut indices: StableRingBufferIndices = cow_into_owned(self.indices.get());
        if new_capacity == indices.capacity() {
            self.indices.set(indices);
            return ;
        }
        let ghost before = self@;
        let ghost slots = self.data@;
        let len: u64 = indices.len();
        let elements_to_copy: u64 = if len <= new_capacity {
            len
        } else {
            new_capacity
        };
        let mut elements: Vec<T> = Vec::new();
        let mut copied: u64 = 0;
        while copied < elements_to_copy
            invariant
                self.data.wf(),
                self.indices.wf(),
                forall|i: StableRingBufferIndices| C::spec_accepts(i),
                self.data@ == slots,
                slots.len() <= D::spec_max_len(),
                spec_consistent(slots.len(), indices),
                before == spec_window(slots, indices),
                len == indices.spec_len(),
                elements_to_copy <= len,
                copied <= elements_to_copy,
                elements@ == before.subrange(len - elements_to_copy, len - elements_to_copy + copied),
            decreases elements_to_copy - copied,
        {
            let offset: u64 = elements_to_copy - 1 - copied;
            proof {
                lemma_ring_slot(
                    indices.spec_start() as int,
                    len - 1 - offset,
                    indices.spec_capacity() as int,
                );
            }
            let idx: u64 = indices.nth_element_from_end(offset).unwrap();
            let element: T = self.data.get(idx).unwrap();
            elements.push(element);
            assert(elements@ =~= before.subrange(
                len - elements_to_copy,
                len - elements_to_copy + copied + 1,
            ));
            copied = copied + 1;
        }
        self.data.clear();
        let mut pushed: usize = 0;
        while pushed < elements.len()
            invariant
                self.data.wf(),
                self.indices.wf(),
                forall|i: StableRingBufferIndices| C::spec_accepts(i),
                pushed <= elements@.len(),
                elements@.len() == elements_to_copy,
                elements_to_copy <= new_capacity,
                elements@.len() <= D::spec_max_len(),
                self.data@ == elements@.subrange(0, pushed as int),
            decreases elements@.len() - pushed,
        {
            self.data.push(&elements[pushed]);
            assert(self.data@ =~= elements@.subrange(0, pushed + 1));
            pushed = pushed + 1;
        }
        indices = StableRingBufferIndices::new(new_capacity);
        indices.increase_len(elements_to_copy);
        self.indices.set(indices);
        assert(self.data@ =~= elements@);
        assert(self@ =~= spec_resize(before, new_capacity as nat)) by {
            assert forall|i: int| 0 <= i < elements_to_copy implies #[trigger] ring_slot(
                0,
                i,
                new_capacity as int,
            ) == i by {
                lemma_ring_slot(0, i, new_capacity as int);
            }
        }
    }

    /// Pushes a new element to the buffer.
    ///
    /// Returns the element that was removed to make room, if any: the
    /// oldest one, when the buffer was full.
    ///
    /// Where the push needs a new slot, the vector of slots must be able
    /// to grow.
    pub fn push(&mut self, val: &T) -> (evicted: Option<T>)
        requires
            old(self).wf(),
            old(self).spec_can_push(),
        ensures
            final(self).wf(),
            final(self).spec_capacity() == old(self).spec_capacity(),
            final(self)@ == spec_push(old(self)@, old(self).spec_capacity() as nat, *val),
            evicted == spec_evicted(old(self)@, old(self).spec_capacity() as nat),
            final(self).spec_slots() == spec_slots_after_push(
                old(self).spec_slots(),
                old(self).spec_indices(),
                *val,
            ),
            final(self).spec_indices().spec_start() == if old(self)@.len() == old(
                self,
            ).spec_capacity() {
                old(self).spec_indices().spec_offset_to_index(1)
            } else {
                old(self).spec_indices().spec_start()
            },
    {
        let mut indices: StableRingBufferIndices = cow_into_owned(self.indices.get());
        let ghost before = self@;
        let ghost slots = self.data@;
        let ghost old_indices = indices;
        let ghost start = indices.spec_start() as int;
        let ghost len = indices.spec_len() as int;
        let ghost capacity = indices.spec_capacity() as int;
        let new_index: u64 = indices.offset_to_index(indices.len());
        proof {
            lemma_ring_slot(start, len, capacity);
            lemma_ring_slot(start, 1, capacity);
            assert forall|i: int| 0 <= i < capacity implies #[trigger] ring_slot(
                start,
                i,
                capacity,
            ) == if start + i < capacity {
                start + i
            } else {
                start + i - capacity
            } by {
                lemma_ring_slot(start, i, capacity);
            }
        }
        let replaced: Option<T> = if indices.len() == indices.capacity() {
            indices.increase_start(1);
            Some(self.data.get(new_index).unwrap())
        } else {
            indices.increase_len(1);
            None
        };
        if new_index == self.data.len() {
            self.data.push(val);
        } else {
            self.data.set(new_index, val);
        }
        self.indices.set(indices);
        proof {
            let new_start = indices.spec_start() as int;
            assert forall|i: int| 0 <= i < capacity implies #[trigger] ring_slot(
                new_start,
                i,
                capacity,
            ) == if new_start + i < capacity {
                new_start + i
            } else {
                new_start + i - capacity
            } by {
                lemma_ring_slot(new_start, i, capacity);
            }
            assert(self@ =~= spec_push(before, capacity as nat, *val));
        }
        replaced
    }

    /// Pops the last element from the buffer.
    pub fn pop(&mut self) -> (last: Option<T>)
        requires
            old(self).wf(),
        ensures
            final(self).wf(),
            final(self).spec_capacity() == old(self).spec_capacity(),
            old(self)@.len() == 0 ==> last is None && final(self)@ == old(self)@,
            old(self)@.len() > 0 ==> last == Some(old(self)@.last()) && final(self)@ == old(
                self,
            )@.drop_last(),
            final(self).spec_slots() == old(self).spec_slots(),
            final(self).spec_indices().spec_start() == old(self).spec_indices().spec_start(),
    {
        let mut indices: StableRingBufferIndices = cow_into_owned(self.indices.get());
        let ghost before = self@;
        if indices.len() == 0 {
            self.indices.set(indices);
            assert(self@ =~= before);
            return None;
        }
        let new_len: u64 = indices.len() - 1;
        indices.decrease_len(1);
        let index: u64 = indices.offset_to_index(new_len);
        proof {
            lemma_ring_slot(
                indices.spec_start() as int,
                new_len as int,
                indices.spec_capacity() as int,
            );
        }
        let last = self.data.get(index);
        self.indices.set(indices);
        assert(self@ =~= before.drop_last());
        last
    }

    /// Removes the `n` last elements from the buffer, or all of them where
    /// there are fewer. No slot is written.
    pub fn truncate(&mut self, n: u64)
        requires
            old(self).wf(),
        ensures
            final(self).wf(),
            final(self).spec_capacity() == old(self).spec_capacity(),
            final(self)@ == spec_truncate(old(self)@, n as nat),
            final(self)@.len() == if old(self)@.len() >= n {
                old(self)@.len() - n
            } else {
                0
            },
            final(self).spec_slots() == old(self).spec_slots(),
            final(self).spec_indices().spec_start() == old(self).spec_indices().spec_start(),
    {
        let mut indices: StableRingBufferIndices = cow_into_owned(self.indices.get());
        let ghost before = self@;
        indices.decrease_len(n);
        self.indices.set(indices);
        assert(self@ =~= spec_truncate(before, n as nat));
    }

    /// Returns the first element if there is one.
    pub fn first(&self) -> (element: Option<T>)
        requires
            self.wf(),
        ensures
            element == if self@.len() > 0 {
                Some(self@[0])
            } else {
                None
            },
    {
        self.nth_element(0)
    }

    /// Returns the last element if there is one.
    pub fn last(&self) -> (element: Option<T>)
        requires
            self.wf(),
        ensures
            element == if self@.len() > 0 {
                Some(self@.last())
            } else {
                None
            },
    {
        self.nth_element_from_end(0)
    }

    /// Returns the `n`-th element from the start, or nothing past the end.
    pub fn nth_element(&self, n: u64) -> (element: Option<T>)
        requires
            self.wf(),
        ensures
            element == if n < self@.len() {
                Some(self@[n as int])
            } else {
                None
            },
    {
        let indices: StableRingBufferIndices = cow_into_owned(self.indices.get());
        match indices.nth_element(n) {
            Some(index) => {
                proof {
                    lemma_ring_slot(
                        indices.spec_start() as int,
                        n as int,
                        indices.spec_capacity() as int,
                    );
                }
                self.data.get(index)
            },
            None => None,
        }
    }

    /// Returns the `n`-th element from the end, or nothing past the start.
    pub fn nth_element_from_end(&self, n: u64) -> (element: Option<T>)
        requires
            self.wf(),
        ensures
            element == if n < self@.len() {
                Some(self@[self@.len() - 1 - n])
            } else {
                None
            },
    {
        let indices: StableRingBufferIndices = cow_into_owned(self.indices.get());
        match indices.nth_element_from_end(n) {
            Some(index) => {
                proof {
                    lemma_ring_slot(
                        indices.spec_start() as int,
                        indices.spec_len() - 1 - n,
                        indices.spec_capacity() as int,
                    );
                }
                self.data.get(index)
            },
            None => None,
        }
    }
}

} // verus!

//! The index record of a ring buffer and its fixed-size byte layout.

use crate::common::codec::RefCodec;
use crate::common::value::Value;
use std::borrow::Cow;
use vstd::prelude::*;
use vstd::bytes::{spec_u64_from_le_bytes, spec_u64_to_le_bytes, u64_from_le_bytes, u64_to_le_bytes};
use vstd::slice::slice_subrange;

verus! {

/// Number of bytes of an encoded index record: three 64-bit integers.
pub const STABLE_RING_BUFFER_INDICES_SIZE: usize = 24;

/// Where the logical window of a ring buffer lies among its physical slots.
#[derive(Clone, Copy, Debug, PartialEq, Eq, Structural)]
pub struct StableRingBufferIndices {
    /// Physical slot of the logically first element.
    start: u64,
    /// Number of elements in the buffer.
    len: u64,
    /// Number of physical slots the buffer may use.
    capacity: u64,
}

/// The physical slot that lies `offset` places after `start` in a ring of
/// `capacity` slots.
pub open spec fn ring_slot(start: int, offset: int, capacity: int) -> int {
    (start + offset) % capacity
}

impl View for StableRingBufferIndices {
    type V = StableRingBufferIndices;

    open spec fn view(&self) -> StableRingBufferIndices {
        *self
    }
}

impl StableRingBufferIndices {
    /// Physical slot of the logically first element.
    pub closed spec fn spec_start(&self) -> u64 {
        self.start
    }

    /// Number of elements in the buffer.
    pub closed spec fn spec_len(&self) -> u64 {
        self.len
    }

    /// Number of physical slots the buffer may use.
    pub closed spec fn spec_capacity(&self) -> u64 {
        self.capacity
    }

    /// The record describes a window that fits its ring: the capacity is
    /// positive, the window is no longer than the ring and starts inside it.
    pub open spec fn wf(&self) -> bool {
        &&& self.spec_capacity() >= 1
        &&& self.spec_len() <= self.spec_capacity()
        &&& self.spec_start() < self.spec_capacity()
    }

    /// The physical slot of the element `offset` places after the first.
    pub open spec fn spec_offset_to_index(&self, offset: u64) -> u64 {
        ring_slot(self.spec_start() as int, offset as int, self.spec_capacity() as int) as u64
    }

    /// The physical slot of the `n`-th element, where there is one.
    pub open spec fn spec_nth_element(&self, n: u64) -> Option<u64> {
        if n < self.spec_len() {
            Some(self.spec_offset_to_index(n))
        } else {
            None
        }
    }

    /// The physical slot of the `n`-th element counted from the end, where
    /// there is one.
    pub open spec fn spec_nth_element_from_end(&self, n: u64) -> Option<u64> {
        if n < self.spec_len() {
            Some(self.spec_offset_to_index((self.spec_len() - 1 - n) as u64))
        } else {
            None
        }
    }

    /// An empty window at slot 0 of a ring of `capacity` slots.
    pub fn new(capacity: u64) -> (indices: Self)
        requires
            capacity >= 1,
        ensures
            indices.spec_start() == 0,
            indices.spec_len() == 0,
            indices.spec_capacity() == capacity,
            indices.wf(),
    {
        Self { start: 0, len: 0, capacity }
    }

    /// Converts an offset from the first element into a physical slot.
    ///
    /// Nothing says that the slot holds an element.
    pub fn offset_to_index(&self, offset: u64) -> (index: u64)
        requires
            self.spec_capacity() >= 1,
        ensures
            index == self.spec_offset_to_index(offset),
            index == (self.spec_start() + offset) % (self.spec_capacity() as int),
            index < self.spec_capacity(),
    {
        let wide: u128 = (self.start as u128 + offset as u128) % (self.capacity as u128);
        wide as u64
    }

    /// Physical slot of the element at offset `n` from the first.
    pub fn nth_element(&self, n: u64) -> (index: Option<u64>)
        requires
            self.spec_capacity() >= 1,
        ensures
            index == self.spec_nth_element(n),
            index is Some <==> n < self.spec_len(),
    {
        if n < self.len {
            Some(self.offset_to_index(n))
        } else {
            None
        }
    }

    /// Physical slot of the element at offset `index` from the last.
    pub fn nth_element_from_end(&self, index: u64) -> (slot: Option<u64>)
        requires
            self.spec_capacity() >= 1,
        ensures
            slot == self.spec_nth_element_from_end(index),
            slot is Some <==> index < self.spec_len(),
    {
        if index < self.len {
            let index_from_start: u64 = self.len - 1 - index;
            self.nth_element(index_from_start)
        } else {
            None
        }
    }

    /// Number of elements in the buffer.
    pub fn len(&self) -> (len: u64)
        ensures
            len == self.spec_len(),
    {
        self.len
    }

    /// Physical slot of the first element.
    pub fn start(&self) -> (start: u64)
        ensures
            start == self.spec_start(),
    {
        self.start
    }

    /// Makes the window longer by `by` elements, up to the capacity.
    pub fn increase_len(&mut self, by: u64)
        ensures
            final(self).spec_len() == if old(self).spec_len() + by <= old(self).spec_capacity() {
                (old(self).spec_len() + by) as u64
            } else {
                old(self).spec_capacity()
            },
            final(self).spec_start() == old(self).spec_start(),
            final(self).spec_capacity() == old(self).spec_capacity(),
    {
        if by <= self.capacity && self.len <= self.capacity - by {
            self.len = self.len + by;
        } else {
            self.len = self.capacity;
        }
    }

    /// Makes the window shorter by `arg` elements, down to none.
    pub fn decrease_len(&mut self, arg: u64)
        ensures
            final(self).spec_len() == if old(self).spec_len() >= arg {
                (old(self).spec_len() - arg) as u64
            } else {
                0
            },
            final(self).spec_start() == old(self).spec_start(),
            final(self).spec_capacity() == old(self).spec_capacity(),
            old(self).wf() ==> final(self).wf(),
    {
        self.len = self.len.saturating_sub(arg);
    }

    /// Moves the first element `by` slots further, wrapping at the capacity.
    pub fn increase_start(&mut self, by: u64)
        requires
            old(self).spec_capacity() >= 1,
        ensures
            final(self).spec_start() == old(self).spec_offset_to_index(by),
            final(self).spec_start() < old(self).spec_capacity(),
            final(self).spec_len() == old(self).spec_len(),
            final(self).spec_capacity() == old(self).spec_capacity(),
    {
        self.start = self.offset_to_index(by);
    }

    /// Number of physical slots the buffer may use.
    pub fn capacity(&self) -> (capacity: u64)
        ensures
            capacity == self.spec_capacity(),
    {
        self.capacity
    }

    /// Whether the buffer holds no element.
    pub fn is_empty(&self) -> (empty: bool)
        ensures
            empty == (self.spec_len() == 0),
    {
        self.len == 0
    }

    /// Whether the record describes a window that fits its ring.
    pub fn is_valid(&self) -> (valid: bool)
        ensures
            valid == self.wf(),
    {
        self.capacity >= 1 && self.len <= self.capacity && self.start < self.capacity
    }

    /// The encoding of a record: `start`, `len` and `capacity`, each as
    /// eight little-endian bytes, in this order.
    pub open spec fn spec_to_bytes(&self) -> Seq<u8> {
        spec_u64_to_le_bytes(self.spec_start()) + spec_u64_to_le_bytes(self.spec_len())
            + spec_u64_to_le_bytes(self.spec_capacity())
    }

    /// Whether `bytes` has the length of an encoded record.
    pub open spec fn spec_decodable(bytes: Seq<u8>) -> bool {
        bytes.len() == STABLE_RING_BUFFER_INDICES_SIZE
    }

    /// The record that `bytes` encodes: three little-endian integers of
    /// eight bytes each.
    pub closed spec fn spec_from_bytes(bytes: Seq<u8>) -> StableRingBufferIndices {
        StableRingBufferIndices {
            start: spec_u64_from_le_bytes(bytes.subrange(0, 8)),
            len: spec_u64_from_le_bytes(bytes.subrange(8, 16)),
            capacity: spec_u64_from_le_bytes(bytes.subrange(16, 24)),
        }
    }

    /// The three fields of the record that `bytes` encodes.
    pub proof fn lemma_from_bytes_fields(bytes: Seq<u8>)
        ensures
            Self::spec_from_bytes(bytes).spec_start() == spec_u64_from_le_bytes(
                bytes.subrange(0, 8),
            ),
            Self::spec_from_bytes(bytes).spec_len() == spec_u64_from_le_bytes(
                bytes.subrange(8, 16),
            ),
            Self::spec_from_bytes(bytes).spec_capacity() == spec_u64_from_le_bytes(
                bytes.subrange(16, 24),
            ),
    {
    }

    /// Encodes the record in its fixed-size layout.
    pub fn to_bytes(&self) -> (bytes: Vec<u8>)
        ensures
            bytes@ == self.spec_to_bytes(),
            bytes@.len() == STABLE_RING_BUFFER_INDICES_SIZE,
    {
        let mut buf: Vec<u8> = u64_to_le_bytes(self.start);
        let mut len_bytes: Vec<u8> = u64_to_le_bytes(self.len);
        let mut capacity_bytes: Vec<u8> = u64_to_le_bytes(self.capacity);
        buf.append(&mut len_bytes);
        buf.append(&mut capacity_bytes);
        buf
    }

    /// Decodes a record from its fixed-size layout.
    pub fn from_bytes(bytes: &[u8]) -> (indices: Self)
        requires
            Self::spec_decodable(bytes@),
        ensures
            indices == Self::spec_from_bytes(bytes@),
    {
        let start: u64 = u64_from_le_bytes(slice_subrange(bytes, 0, 8));
        let len: u64 = u64_from_le_bytes(slice_subrange(bytes, 8, 16));
        let capacity: u64 = u64_from_le_bytes(slice_subrange(bytes, 16, 24));
        Self { start, len, capacity }
    }

    /// Decodes a record, or nothing where `bytes` has not the length of one.
    pub fn try_from_bytes(bytes: &[u8]) -> (indices: Option<Self>)
        ensures
            indices is Some <==> Self::spec_decodable(bytes@),
            indices matches Some(i) ==> i == Self::spec_from_bytes(bytes@),
    {
        if bytes.len() == STABLE_RING_BUFFER_INDICES_SIZE {
            Some(Self::from_bytes(bytes))
        } else {
            None
        }
    }

    /// Decoding an encoded record gives the record back.
    pub proof fn lemma_bytes_round_trip(indices: StableRingBufferIndices)
        ensures
            Self::spec_decodable(indices.spec_to_bytes()),
            Self::spec_from_bytes(indices.spec_to_bytes()) == indices,
    {
        vstd::bytes::lemma_auto_spec_u64_to_from_le_bytes();
        let a = spec_u64_to_le_bytes(indices.spec_start());
        let b = spec_u64_to_le_bytes(indices.spec_len());
        let c = spec_u64_to_le_bytes(indices.spec_capacity());
        let all = indices.spec_to_bytes();
        assert(all.subrange(0, 8) =~= a);
        assert(all.subrange(8, 16) =~= b);
        assert(all.subrange(16, 24) =~= c);
    }
}

impl Value for StableRingBufferIndices {
    fn duplicate(&self) -> (copy: Self) {
        *self
    }
}

/// The byte string that an index record is stored as.
impl RefCodec<StableRingBufferIndices> for Vec<u8> {
    open spec fn spec_decodable(source: Seq<u8>) -> bool {
        StableRingBufferIndices::spec_decodable(source)
    }

    open spec fn spec_decode(source: Seq<u8>) -> StableRingBufferIndices {
        StableRingBufferIndices::spec_from_bytes(source)
    }

    open spec fn spec_encode(dest: StableRingBufferIndices) -> Seq<u8> {
        dest.spec_to_bytes()
    }

    proof fn lemma_round_trip(dest: StableRingBufferIndices) {
        StableRingBufferIndices::lemma_bytes_round_trip(dest);
    }

    fn decodable(source: &Vec<u8>) -> (ok: bool) {
        source.len() == STABLE_RING_BUFFER_INDICES_SIZE
    }

    fn decode_ref<'a>(source: &'a Vec<u8>) -> (dest: Cow<'a, StableRingBufferIndices>) {
        Cow::Owned(StableRingBufferIndices::from_bytes(source.as_slice()))
    }

    fn encode(dest: StableRingBufferIndices) -> (source: Vec<u8>) {
        dest.to_bytes()
    }
}

} // verus!

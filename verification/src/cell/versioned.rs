//! A cell whose stored shape is decoded into a canonical shape on read.

use crate::cell::stable::StableCell;
use crate::cell::structure::CellStructure;
use crate::common::codec::{cow_into_owned, RefCodec};
use crate::common::value::Value;
use crate::cell::stable::spec_opened_bytes;
use crate::common::memory::Region;
use std::borrow::Cow;
use std::marker::PhantomData;
use vstd::prelude::*;

verus! {

/// A cell over a cell of stored values `C`, seen as a cell of canonical
/// values `T`.
///
/// Reading decodes whatever shape is stored and leaves the storage as it
/// is; only writing stores the newest shape.
pub struct VersionedStableCell<T: Value + Clone, C: RefCodec<T> + View + Clone, B: CellStructure<C>> {
    inner: B,
    phantom_t: PhantomData<(T, C)>,
}

impl<T: Value + Clone, C: RefCodec<T> + View + Clone, B: CellStructure<C>> VersionedStableCell<
    T,
    C,
    B,
> {
    /// Wraps a cell whose stored value can be decoded.
    pub fn with_cell(inner: B) -> (cell: Self)
        requires
            inner.wf(),
            C::spec_decodable(inner@),
        ensures
            cell.wf(),
            cell@ == C::spec_decode(inner@),
            cell.spec_inner() == inner,
    {
        Self { inner, phantom_t: PhantomData }
    }

    /// Wraps a cell if its stored value can be decoded, and gives it back
    /// unchanged if not.
    pub fn try_with_cell(inner: B) -> (cell: Result<Self, B>)
        requires
            inner.wf(),
        ensures
            match cell {
                Ok(c) => C::spec_decodable(inner@) && c.wf() && c@ == C::spec_decode(inner@)
                    && c.spec_inner() == inner,
                Err(b) => !C::spec_decodable(inner@) && b == inner,
            },
    {
        let ok = {
            let stored = inner.get();
            match &stored {
                Cow::Borrowed(lent) => C::decodable(lent),
                Cow::Owned(owned) => C::decodable(owned),
            }
        };
        if ok {
            Ok(Self { inner, phantom_t: PhantomData })
        } else {
            Err(inner)
        }
    }

    /// The cell of stored values underneath.
    pub closed spec fn spec_inner(&self) -> B {
        self.inner
    }

    /// Gives back the cell of stored values.
    pub fn into_inner(self) -> (inner: B)
        ensures
            inner == self.spec_inner(),
    {
        self.inner
    }
}

impl<T: Value + Clone> VersionedStableCell<T, Vec<u8>, StableCell> where Vec<u8>: RefCodec<T> {
    /// Creates a cell that holds `default_value` in `memory`, whatever the
    /// region held.
    pub fn new(memory: Region, default_value: T) -> (cell: Self)
        requires
            StableCell::spec_accepts(<Vec<u8> as RefCodec<T>>::spec_encode(default_value@)),
        ensures
            cell.wf(),
            cell@ == default_value@,
            cell.spec_inner()@ == <Vec<u8> as RefCodec<T>>::spec_encode(default_value@),
    {
        proof {
            <Vec<u8> as RefCodec<T>>::lemma_round_trip(default_value@);
        }
        let stored: Vec<u8> = <Vec<u8> as RefCodec<T>>::encode(default_value);
        Self { inner: StableCell::new(memory, stored), phantom_t: PhantomData }
    }

    /// The bytes of the cell that opening a region gives: those that the
    /// region holds, and the encoded default for an empty region.
    pub open spec fn spec_opened(memory: Region, default_value: T::V) -> Seq<u8> {
        spec_opened_bytes(memory@, <Vec<u8> as RefCodec<T>>::spec_encode(default_value))
    }

    /// Opens the cell that `memory` holds; an empty region gets
    /// `default_value` written, and the cell then holds it. Where the
    /// bytes that the region holds cannot be decoded, the opened cell of
    /// bytes is given back as it is.
    ///
    /// The region must be empty or hold a cell that this type wrote.
    pub fn init(memory: Region, default_value: T) -> (cell: Result<Self, StableCell>)
        requires
            StableCell::spec_accepts(<Vec<u8> as RefCodec<T>>::spec_encode(default_value@)),
            memory@ is Empty || memory@ is Cell,
        ensures
            cell is Ok <==> <Vec<u8> as RefCodec<T>>::spec_decodable(
                Self::spec_opened(memory, default_value@),
            ),
            memory@ is Empty ==> cell is Ok,
            match cell {
                Ok(c) => {
                    &&& c.wf()
                    &&& c.spec_inner().wf()
                    &&& c.spec_inner()@ == Self::spec_opened(memory, default_value@)
                    &&& c@ == <Vec<u8> as RefCodec<T>>::spec_decode(
                        Self::spec_opened(memory, default_value@),
                    )
                    &&& memory@ is Empty ==> c@ == default_value@
                },
                Err(bytes) => {
                    &&& bytes.wf()
                    &&& bytes@ == Self::spec_opened(memory, default_value@)
                },
            },
    {
        proof {
            <Vec<u8> as RefCodec<T>>::lemma_round_trip(default_value@);
        }
        let stored: Vec<u8> = <Vec<u8> as RefCodec<T>>::encode(default_value);
        Self::try_with_cell(StableCell::init(memory, stored))
    }
}

impl<T: Value + Clone, C: RefCodec<T> + View + Clone, B: CellStructure<C>> CellStructure<
    T,
> for VersionedStableCell<T, C, B> {
    closed spec fn wf(&self) -> bool {
        &&& self.inner.wf()
        &&& C::spec_decodable(self.inner@)
    }

    closed spec fn view(&self) -> T::V {
        C::spec_decode(self.inner@)
    }

    open spec fn spec_accepts(value: T::V) -> bool {
        B::spec_accepts(C::spec_encode(value))
    }

    fn get(&self) -> (value: Cow<'_, T>) {
        let stored = self.inner.get();
        match stored {
            Cow::Borrowed(lent) => {
                assert(lent@ == self.inner@);
                C::decode_ref(lent)
            },
            Cow::Owned(owned) => {
                assert(owned@ == self.inner@);
                Cow::Owned(cow_into_owned(C::decode_ref(&owned)))
            },
        }
    }

    /// Stores the value in the newest shape.
    fn set(&mut self, value: T)
        ensures
            final(self).spec_inner()@ == C::spec_encode(value@),
    {
        proof {
            C::lemma_round_trip(value@);
        }
        self.inner.set(C::encode(value));
    }
}

} // verus!

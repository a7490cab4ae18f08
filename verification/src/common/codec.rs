//! Codecs between the stored shapes of a record and its canonical shape.

use crate::common::value::Value;
use std::borrow::Cow;
use vstd::prelude::*;

verus! {

/// A stored shape that decodes into the canonical shape `D`, by value.
///
/// `Self` is what a collection stores; `D` is what its users see. Whatever
/// was encoded decodes to itself again.
pub trait Codec<D: View>: View + Sized {
    /// Whether a stored value is one that decoding accepts.
    spec fn spec_decodable(source: Self::V) -> bool;

    /// The canonical value that a stored value stands for.
    spec fn spec_decode(source: Self::V) -> D::V;

    /// The stored value that a canonical value is written as.
    spec fn spec_encode(dest: D::V) -> Self::V;

    /// What was encoded can be decoded, and decodes to what it was.
    proof fn lemma_round_trip(dest: D::V)
        ensures
            Self::spec_decodable(Self::spec_encode(dest)),
            Self::spec_decode(Self::spec_encode(dest)) == dest,
    ;

    /// Returns whether `source` is a stored value that decoding accepts.
    fn decodable(source: &Self) -> (ok: bool)
        ensures
            ok == Self::spec_decodable(source@),
    ;

    /// Decodes a stored value into the canonical shape.
    fn decode(source: Self) -> (dest: D)
        requires
            Self::spec_decodable(source@),
        ensures
            dest@ == Self::spec_decode(source@),
    ;

    /// Encodes a canonical value into the shape that is stored.
    fn encode(dest: D) -> (source: Self)
        ensures
            source@ == Self::spec_encode(dest@),
    ;
}

/// A stored shape that decodes into the canonical shape `D`, by reference:
/// no copy is made where the stored value already is the canonical one.
pub trait RefCodec<D: View + Clone>: View + Sized {
    /// Whether a stored value is one that decoding accepts.
    spec fn spec_decodable(source: Self::V) -> bool;

    /// The canonical value that a stored value stands for.
    spec fn spec_decode(source: Self::V) -> D::V;

    /// The stored value that a canonical value is written as.
    spec fn spec_encode(dest: D::V) -> Self::V;

    /// What was encoded can be decoded, and decodes to what it was.
    proof fn lemma_round_trip(dest: D::V)
        ensures
            Self::spec_decodable(Self::spec_encode(dest)),
            Self::spec_decode(Self::spec_encode(dest)) == dest,
    ;

    /// Returns whether `source` is a stored value that decoding accepts.
    fn decodable(source: &Self) -> (ok: bool)
        ensures
            ok == Self::spec_decodable(source@),
    ;

    /// Decodes a stored value into the canonical shape.
    fn decode_ref<'a>(source: &'a Self) -> (dest: Cow<'a, D>)
        requires
            Self::spec_decodable(source@),
        ensures
            dest@ == Self::spec_decode(source@),
    ;

    /// Encodes a canonical value into the shape that is stored.
    fn encode(dest: D) -> (source: Self)
        ensures
            source@ == Self::spec_encode(dest@),
    ;
}

/// Every shape is its own codec: nothing is converted.
impl<D: View> Codec<D> for D {
    open spec fn spec_decodable(source: D::V) -> bool {
        true
    }

    open spec fn spec_decode(source: D::V) -> D::V {
        source
    }

    open spec fn spec_encode(dest: D::V) -> D::V {
        dest
    }

    proof fn lemma_round_trip(dest: D::V) {
    }

    fn decodable(source: &D) -> (ok: bool) {
        true
    }

    fn decode(source: D) -> (dest: D) {
        source
    }

    fn encode(dest: D) -> (source: D) {
        dest
    }
}

/// Every shape is its own codec by reference: the stored value is lent out.
impl<D: View + Clone> RefCodec<D> for D {
    open spec fn spec_decodable(source: D::V) -> bool {
        true
    }

    open spec fn spec_decode(source: D::V) -> D::V {
        source
    }

    open spec fn spec_encode(dest: D::V) -> D::V {
        dest
    }

    proof fn lemma_round_trip(dest: D::V) {
    }

    fn decodable(source: &D) -> (ok: bool) {
        true
    }

    /// Lends the stored value: no copy is made.
    fn decode_ref<'a>(source: &'a D) -> (dest: Cow<'a, D>)
        ensures
            dest == Cow::<D>::Borrowed(source),
    {
        Cow::Borrowed(source)
    }

    fn encode(dest: D) -> (source: D) {
        dest
    }
}

/// Takes the value out of a `Cow`, copying it where it was lent.
pub fn cow_into_owned<'a, T: Value + Clone>(value: Cow<'a, T>) -> (owned: T)
    ensures
        owned@ == value@,
{
    match value {
        Cow::Borrowed(lent) => lent.duplicate(),
        Cow::Owned(owned) => owned,
    }
}

} // verus!

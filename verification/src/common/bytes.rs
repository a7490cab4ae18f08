//! 64-bit integers as the byte strings that a region stores.

use crate::common::codec::{Codec, RefCodec};
use std::borrow::Cow;
use vstd::bytes::{spec_u64_from_le_bytes, spec_u64_to_le_bytes, u64_from_le_bytes, u64_to_le_bytes};
use vstd::prelude::*;

verus! {

/// Number of bytes that a 64-bit integer is stored as.
pub const U64_SIZE: usize = 8;

/// A 64-bit integer is stored as its eight bytes, the least significant
/// first.
impl Codec<u64> for Vec<u8> {
    open spec fn spec_decodable(source: Seq<u8>) -> bool {
        source.len() == U64_SIZE
    }

    open spec fn spec_decode(source: Seq<u8>) -> u64 {
        spec_u64_from_le_bytes(source)
    }

    open spec fn spec_encode(dest: u64) -> Seq<u8> {
        spec_u64_to_le_bytes(dest)
    }

    proof fn lemma_round_trip(dest: u64) {
        vstd::bytes::lemma_auto_spec_u64_to_from_le_bytes();
    }

    fn decodable(source: &Vec<u8>) -> (ok: bool) {
        source.len() == U64_SIZE
    }

    fn decode(source: Vec<u8>) -> (dest: u64) {
        u64_from_le_bytes(source.as_slice())
    }

    fn encode(dest: u64) -> (source: Vec<u8>) {
        u64_to_le_bytes(dest)
    }
}

/// A 64-bit integer is stored as its eight bytes, the least significant
/// first.
impl RefCodec<u64> for Vec<u8> {
    open spec fn spec_decodable(source: Seq<u8>) -> bool {
        source.len() == U64_SIZE
    }

    open spec fn spec_decode(source: Seq<u8>) -> u64 {
        spec_u64_from_le_bytes(source)
    }

    open spec fn spec_encode(dest: u64) -> Seq<u8> {
        spec_u64_to_le_bytes(dest)
    }

    proof fn lemma_round_trip(dest: u64) {
        vstd::bytes::lemma_auto_spec_u64_to_from_le_bytes();
    }

    fn decodable(source: &Vec<u8>) -> (ok: bool) {
        source.len() == U64_SIZE
    }

    fn decode_ref<'a>(source: &'a Vec<u8>) -> (dest: Cow<'a, u64>) {
        Cow::Owned(u64_from_le_bytes(source.as_slice()))
    }

    fn encode(dest: u64) -> (source: Vec<u8>) {
        u64_to_le_bytes(dest)
    }
}

} // verus!

//! The vector of `ic_stable_structures` with 64-bit items in a heap-backed
//! region, and what is taken on trust of it.

use crate::common::memory::{region_content, Region, RegionContent};
use ic_stable_structures::VectorMemory;
use vstd::prelude::*;

verus! {

/// A vector of `ic_stable_structures` that holds `u64` items in a
/// `VectorMemory`. Its layout is the outside crate's; only the functions
/// below touch it.
#[verifier::external_body]
pub struct StableVec {
    inner: ic_stable_structures::Vec<u64, VectorMemory>,
}

/// The items that a stable vector holds, first to last.
pub uninterp spec fn stable_vec_items(v: StableVec) -> Seq<u64>;

/// The greatest number of items for which appending one more stays inside
/// the 2^63 bytes that a heap-backed region can address: each item takes 8
/// bytes after a header of 64.
pub const STABLE_VEC_MAX_LEN: u64 = 0x0800_0000_0000_0000;

/// The items of the vector that opening a region with this content
/// gives: those of the vector it holds, and none for an empty region.
pub open spec fn spec_opened_items(content: RegionContent) -> Seq<u64> {
    match content {
        RegionContent::Vector(items) => items,
        _ => Seq::empty(),
    }
}

/// `Vec::new`: formats the region as an empty vector, whatever it held.
#[verifier::external_body]
pub(crate) fn stable_vec_new(region: Region) -> (v: StableVec)
    ensures
        stable_vec_items(v) == Seq::<u64>::empty(),
{
    StableVec { inner: ic_stable_structures::Vec::new(region.memory) }
}

/// `Vec::init`: formats an empty region as an empty vector, and opens the
/// vector that a region holds. A region with anything else in it stops
/// the outside constructor and is left out.
#[verifier::external_body]
pub(crate) fn stable_vec_init(region: Region) -> (v: StableVec)
    requires
        region_content(region) is Empty || region_content(region) is Vector,
    ensures
        stable_vec_items(v) == spec_opened_items(region_content(region)),
{
    StableVec { inner: ic_stable_structures::Vec::init(region.memory) }
}

/// `Vec::into_memory`: gives the region back, with the vector in it.
#[verifier::external_body]
pub(crate) fn stable_vec_into_memory(v: StableVec) -> (region: Region)
    ensures
        region_content(region) == RegionContent::Vector(stable_vec_items(v)),
{
    Region { memory: v.inner.into_memory() }
}

/// `Vec::is_empty`: whether the stored length is zero.
#[verifier::external_body]
pub(crate) fn stable_vec_is_empty(v: &StableVec) -> (empty: bool)
    ensures
        empty == (stable_vec_items(*v).len() == 0),
{
    v.inner.is_empty()
}

/// `Vec::len`: the stored length.
#[verifier::external_body]
pub(crate) fn stable_vec_len(v: &StableVec) -> (len: u64)
    ensures
        len == stable_vec_items(*v).len(),
{
    v.inner.len()
}

/// `Vec::set`: overwrites the slot at `index`, which must exist.
#[verifier::external_body]
pub(crate) fn stable_vec_set(v: &mut StableVec, index: u64, item: &u64)
    requires
        index < stable_vec_items(*old(v)).len(),
    ensures
        stable_vec_items(*final(v)) == stable_vec_items(*old(v)).update(index as int, *item),
{
    v.inner.set(index, item)
}

/// `Vec::get`: reads the slot at `index` if it is below the stored length.
#[verifier::external_body]
pub(crate) fn stable_vec_get(v: &StableVec, index: u64) -> (item: Option<u64>)
    ensures
        item == if index < stable_vec_items(*v).len() {
            Some(stable_vec_items(*v)[index as int])
        } else {
            None
        },
{
    v.inner.get(index)
}

/// `Vec::push`: writes the item after the last one, growing the region
/// where needed, and adds one to the stored length. Below
/// `STABLE_VEC_MAX_LEN` items the region can always grow.
#[verifier::external_body]
pub(crate) fn stable_vec_push(v: &mut StableVec, item: &u64)
    requires
        stable_vec_items(*old(v)).len() < STABLE_VEC_MAX_LEN,
    ensures
        stable_vec_items(*final(v)) == stable_vec_items(*old(v)).push(*item),
{
    v.inner.push(item)
}

/// `Vec::pop`: reads the last slot and takes one from the stored length.
#[verifier::external_body]
pub(crate) fn stable_vec_pop(v: &mut StableVec) -> (item: Option<u64>)
    ensures
        stable_vec_items(*old(v)).len() == 0 ==> item is None && stable_vec_items(*final(v))
            == stable_vec_items(*old(v)),
        stable_vec_items(*old(v)).len() > 0 ==> item == Some(stable_vec_items(*old(v)).last())
            && stable_vec_items(*final(v)) == stable_vec_items(*old(v)).drop_last(),
{
    v.inner.pop()
}

/// `Vec::iter`: reads the slots below the stored length, first to last.
#[verifier::external_body]
pub(crate) fn stable_vec_to_vec(v: &StableVec) -> (items: Vec<u64>)
    ensures
        items@ == stable_vec_items(*v),
{
    v.inner.iter().collect()
}

} // verus!

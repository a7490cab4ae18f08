//! The ordered map of `ic_stable_structures` from 64-bit keys to byte
//! strings, in a heap-backed region, and what is taken on trust of it.

use crate::btreemap::structure::{
    spec_entries_view, spec_entry_view, spec_is_first, spec_is_from_prev_key, spec_is_last,
    spec_is_range, spec_key_limit, spec_lookup, spec_no_entries, spec_value_view, BTreeMapIteratorStructure,
    BTreeMapStructure,
};
use crate::common::memory::{region_content, Region, RegionContent};
use ic_stable_structures::VectorMemory;
use std::ops::Range;
use vstd::prelude::*;

verus! {

/// A map of `ic_stable_structures` from `u64` keys to byte strings in a
/// `VectorMemory`. Its layout is the outside crate's; only the functions
/// below touch it.
#[verifier::external_body]
pub struct StableBTreeMap {
    inner: ic_stable_structures::BTreeMap<u64, Vec<u8>, VectorMemory>,
}

/// The entries that a stable map holds: each key with the bytes stored
/// for it.
pub uninterp spec fn stable_map_entries(m: StableBTreeMap) -> Map<u64, Seq<u8>>;

/// The longest byte string that a map stores as a value: its length is
/// written as a 32-bit integer.
pub const STABLE_MAP_MAX_VALUE_SIZE: u64 = 0xffff_ffff;

/// The entries of the map that opening a region with this content
/// gives: those of the map it holds, and none for an empty region.
pub open spec fn spec_opened_entries(content: RegionContent) -> Map<u64, Seq<u8>> {
    match content {
        RegionContent::BTreeMap(entries) => entries,
        _ => Map::empty(),
    }
}

/// `BTreeMap::new`: formats the region as an empty map, whatever it held.
#[verifier::external_body]
pub(crate) fn stable_map_new(region: Region) -> (m: StableBTreeMap)
    ensures
        stable_map_entries(m) == spec_no_entries::<Seq<u8>>(),
{
    StableBTreeMap { inner: ic_stable_structures::BTreeMap::new(region.memory) }
}

/// `BTreeMap::init`: formats an empty region as an empty map, and loads
/// the map that a region holds, which has a stored number of entries. A
/// region with anything else in it is left out.
#[verifier::external_body]
pub(crate) fn stable_map_init(region: Region) -> (m: StableBTreeMap)
    requires
        region_content(region) is Empty || region_content(region) is BTreeMap,
    ensures
        stable_map_entries(m) == spec_opened_entries(region_content(region)),
        stable_map_entries(m).dom().finite(),
{
    StableBTreeMap { inner: ic_stable_structures::BTreeMap::init(region.memory) }
}

/// `BTreeMap::into_memory`: gives the region back, with the map in it.
#[verifier::external_body]
pub(crate) fn stable_map_into_memory(m: StableBTreeMap) -> (region: Region)
    ensures
        region_content(region) == RegionContent::BTreeMap(stable_map_entries(m)),
{
    Region { memory: m.inner.into_memory() }
}

/// `BTreeMap::get`: searches the tree for `key` and reads its value.
#[verifier::external_body]
pub(crate) fn stable_map_get(m: &StableBTreeMap, key: &u64) -> (value: Option<Vec<u8>>)
    ensures
        spec_value_view(value) == spec_lookup(stable_map_entries(*m), *key),
{
    m.inner.get(key)
}

/// `BTreeMap::insert`: stores `value` for `key` and returns the value
/// that it replaced. The region grows as the heap allows.
#[verifier::external_body]
pub(crate) fn stable_map_insert(m: &mut StableBTreeMap, key: u64, value: Vec<u8>) -> (previous:
    Option<Vec<u8>>)
    requires
        value@.len() <= STABLE_MAP_MAX_VALUE_SIZE,
    ensures
        stable_map_entries(*final(m)) == stable_map_entries(*old(m)).insert(key, value@),
        spec_value_view(previous) == spec_lookup(stable_map_entries(*old(m)), key),
{
    m.inner.insert(key, value)
}

/// `BTreeMap::remove`: removes `key` and returns the value it had.
#[verifier::external_body]
pub(crate) fn stable_map_remove(m: &mut StableBTreeMap, key: &u64) -> (previous: Option<Vec<u8>>)
    ensures
        stable_map_entries(*final(m)) == stable_map_entries(*old(m)).remove(*key),
        spec_value_view(previous) == spec_lookup(stable_map_entries(*old(m)), *key),
{
    m.inner.remove(key)
}

/// `BTreeMap::pop_first`: removes and returns the entry of the minimum
/// key; an empty map gives nothing and stays empty.
#[verifier::external_body]
pub(crate) fn stable_map_pop_first(m: &mut StableBTreeMap) -> (entry: Option<(u64, Vec<u8>)>)
    ensures
        spec_is_first(stable_map_entries(*old(m)), spec_entry_view(entry)),
        match entry {
            Some((k, _)) => stable_map_entries(*final(m)) == stable_map_entries(*old(m)).remove(k),
            None => stable_map_entries(*final(m)) == stable_map_entries(*old(m)),
        },
{
    m.inner.pop_first()
}

/// `BTreeMap::pop_last`: removes and returns the entry of the maximum
/// key; an empty map gives nothing and stays empty.
#[verifier::external_body]
pub(crate) fn stable_map_pop_last(m: &mut StableBTreeMap) -> (entry: Option<(u64, Vec<u8>)>)
    ensures
        spec_is_last(stable_map_entries(*old(m)), spec_entry_view(entry)),
        match entry {
            Some((k, _)) => stable_map_entries(*final(m)) == stable_map_entries(*old(m)).remove(k),
            None => stable_map_entries(*final(m)) == stable_map_entries(*old(m)),
        },
{
    m.inner.pop_last()
}

/// `BTreeMap::contains_key`: searches the tree for `key`.
#[verifier::external_body]
pub(crate) fn stable_map_contains_key(m: &StableBTreeMap, key: &u64) -> (found: bool)
    ensures
        found == stable_map_entries(*m).contains_key(*key),
{
    m.inner.contains_key(key)
}

/// `BTreeMap::first_key_value`: reads the entry of the minimum key.
#[verifier::external_body]
pub(crate) fn stable_map_first_key_value(m: &StableBTreeMap) -> (entry: Option<(u64, Vec<u8>)>)
    ensures
        spec_is_first(stable_map_entries(*m), spec_entry_view(entry)),
{
    m.inner.first_key_value()
}

/// `BTreeMap::last_key_value`: reads the entry of the maximum key.
#[verifier::external_body]
pub(crate) fn stable_map_last_key_value(m: &StableBTreeMap) -> (entry: Option<(u64, Vec<u8>)>)
    ensures
        spec_is_last(stable_map_entries(*m), spec_entry_view(entry)),
{
    m.inner.last_key_value()
}

/// `BTreeMap::len`: the stored number of entries.
#[verifier::external_body]
pub(crate) fn stable_map_len(m: &StableBTreeMap) -> (len: u64)
    ensures
        len == stable_map_entries(*m).len(),
{
    m.inner.len()
}

/// `BTreeMap::is_empty`: whether the stored number of entries is zero.
#[verifier::external_body]
pub(crate) fn stable_map_is_empty(m: &StableBTreeMap) -> (empty: bool)
    ensures
        empty == (stable_map_entries(*m).len() == 0),
{
    m.inner.is_empty()
}

/// `BTreeMap::clear_new`: drops the tree and resets the header.
#[verifier::external_body]
pub(crate) fn stable_map_clear(m: &mut StableBTreeMap)
    ensures
        stable_map_entries(*final(m)) == spec_no_entries::<Seq<u8>>(),
{
    m.inner.clear_new()
}

/// `BTreeMap::iter`: walks all the entries in ascending order of the keys.
#[verifier::external_body]
pub(crate) fn stable_map_iter(m: &StableBTreeMap) -> (entries: Vec<(u64, Vec<u8>)>)
    ensures
        spec_is_range(stable_map_entries(*m), 0, spec_key_limit(), spec_entries_view(entries@)),
{
    m.inner.iter().map(|entry| entry.into_pair()).collect()
}

/// `BTreeMap::range`: walks the entries whose keys lie from `low` up to,
/// but not including, `high`, in ascending order of the keys.
#[verifier::external_body]
pub(crate) fn stable_map_range(m: &StableBTreeMap, low: u64, high: u64) -> (entries: Vec<
    (u64, Vec<u8>),
>)
    ensures
        spec_is_range(
            stable_map_entries(*m),
            low as int,
            high as int,
            spec_entries_view(entries@),
        ),
{
    m.inner.range(low..high).map(|entry| entry.into_pair()).collect()
}

/// `BTreeMap::iter_from_prev_key`: walks the entries in ascending order
/// from the largest key strictly less than `bound`, and walks nothing
/// where there is no such key.
#[verifier::external_body]
pub(crate) fn stable_map_iter_from_prev_key(m: &StableBTreeMap, bound: &u64) -> (entries: Vec<
    (u64, Vec<u8>),
>)
    ensures
        spec_is_from_prev_key(stable_map_entries(*m), *bound, spec_entries_view(entries@)),
{
    m.inner.iter_from_prev_key(bound).map(|entry| entry.into_pair()).collect()
}

impl StableBTreeMap {
    /// Creates an empty map in `memory`, whatever the region held.
    pub fn new(memory: Region) -> (map: Self)
        ensures
            map.wf(),
            map@ == Map::<u64, Seq<u8>>::empty(),
    {
        stable_map_new(memory)
    }

    /// Opens the map that `memory` holds; an empty region becomes an
    /// empty map.
    ///
    /// The region must be empty or hold a map that this type wrote.
    pub fn init(memory: Region) -> (map: Self)
        requires
            memory@ is Empty || memory@ is BTreeMap,
        ensures
            map.wf(),
            map@ == spec_opened_entries(memory@),
            memory@ is Empty ==> map@ == Map::<u64, Seq<u8>>::empty(),
    {
        stable_map_init(memory)
    }

    /// Takes the map apart and gives its region back, with the entries in
    /// it.
    pub fn into_memory(self) -> (memory: Region)
        ensures
            memory@ == RegionContent::BTreeMap(self@),
    {
        stable_map_into_memory(self)
    }
}

impl BTreeMapStructure<Vec<u8>> for StableBTreeMap {
    closed spec fn wf(&self) -> bool {
        stable_map_entries(*self).dom().finite()
    }

    closed spec fn view(&self) -> Map<u64, Seq<u8>> {
        stable_map_entries(*self)
    }

    open spec fn spec_accepts(value: Seq<u8>) -> bool {
        value.len() <= STABLE_MAP_MAX_VALUE_SIZE
    }

    proof fn lemma_finite(&self) {
    }

    fn get(&mut self, key: &u64) -> (value: Option<Vec<u8>>) {
        stable_map_get(self, key)
    }

    fn insert(&mut self, key: u64, value: Vec<u8>) -> (previous: Option<Vec<u8>>) {
        stable_map_insert(self, key, value)
    }

    fn remove(&mut self, key: &u64) -> (previous: Option<Vec<u8>>) {
        stable_map_remove(self, key)
    }

    fn pop_first(&mut self) -> (entry: Option<(u64, Vec<u8>)>) {
        stable_map_pop_first(self)
    }

    fn pop_last(&mut self) -> (entry: Option<(u64, Vec<u8>)>) {
        stable_map_pop_last(self)
    }

    fn contains_key(&self, key: &u64) -> (found: bool) {
        stable_map_contains_key(self, key)
    }

    fn first_key_value(&self) -> (entry: Option<(u64, Vec<u8>)>) {
        stable_map_first_key_value(self)
    }

    fn last_key_value(&self) -> (entry: Option<(u64, Vec<u8>)>) {
        stable_map_last_key_value(self)
    }

    fn len(&self) -> (len: u64) {
        stable_map_len(self)
    }

    fn is_empty(&self) -> (empty: bool) {
        let empty = stable_map_is_empty(self);
        proof {
            if empty {
                self@.dom().lemma_len0_is_empty();
                assert forall|k: u64| !self@.contains_key(k) by {
                    assert(!Set::<u64>::empty().contains(k));
                }
            } else {
                assert(self@.dom().contains(self@.dom().choose()));
                assert(self@.contains_key(self@.dom().choose()));
            }
        }
        empty
    }

    fn clear(&mut self) {
        stable_map_clear(self)
    }
}

impl BTreeMapIteratorStructure<Vec<u8>> for StableBTreeMap {
    fn iter(&self) -> (entries: Vec<(u64, Vec<u8>)>) {
        stable_map_iter(self)
    }

    fn range(&self, key_range: Range<u64>) -> (entries: Vec<(u64, Vec<u8>)>) {
        stable_map_range(self, key_range.start, key_range.end)
    }

    fn iter_from_prev_key(&self, bound: &u64) -> (entries: Vec<(u64, Vec<u8>)>) {
        stable_map_iter_from_prev_key(self, bound)
    }
}

} // verus!

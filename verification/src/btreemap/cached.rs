//! An ordered map with a least-recently-used read cache in front of it.

use crate::btreemap::stable::{spec_opened_entries, StableBTreeMap};
use crate::btreemap::structure::{BTreeMapIteratorStructure, BTreeMapStructure};
use crate::btreemap::structure::spec_lookup;
use crate::common::lru::{
    lemma_insert, lemma_remove, lemma_touch, spec_contains, spec_get, spec_insert, spec_remove,
    spec_touch, LruCache,
};
use crate::common::value::Value;
use crate::common::memory::Region;
use std::ops::Range;
use vstd::prelude::*;

verus! {

/// Every cached value is the value that the backing map holds for its
/// key.
pub open spec fn spec_coherent<A>(cache: Seq<(u64, A)>, backing: Map<u64, A>) -> bool {
    forall|k: u64|
        (#[trigger] spec_get(cache, k)) matches Some(v) ==> backing.contains_key(k) && backing[k]
            == v
}

/// A map that answers reads from a cache of bounded size where it can.
///
/// The cache is written on every insert and on every read that found a
/// value in the backing map, and emptied of a key whenever the backing map
/// loses it, so that a read gives what the backing map alone would give.
pub struct CachedBTreeMap<V: Value, B: BTreeMapStructure<V>> {
    inner: B,
    cache: LruCache<V>,
}

impl CachedBTreeMap<Vec<u8>, StableBTreeMap> {
    /// Creates an empty map in `memory`, whatever the region held, with a
    /// cache of at most `max_cache_items` entries.
    pub fn new(memory: Region, max_cache_items: u32) -> (map: Self)
        ensures
            map.wf(),
            map@ == Map::<u64, Seq<u8>>::empty(),
            map.spec_cache() == Seq::<(u64, Seq<u8>)>::empty(),
            map.spec_cache_capacity() == max_cache_items,
    {
        Self::with_map(StableBTreeMap::new(memory), max_cache_items)
    }

    /// Opens the map that `memory` holds, with an empty cache of at most
    /// `max_cache_items` entries; an empty region becomes an empty map.
    ///
    /// The region must be empty or hold a map that this type wrote.
    pub fn init(memory: Region, max_cache_items: u32) -> (map: Self)
        requires
            memory@ is Empty || memory@ is BTreeMap,
        ensures
            map.wf(),
            map@ == spec_opened_entries(memory@),
            memory@ is Empty ==> map@ == Map::<u64, Seq<u8>>::empty(),
            map.spec_cache() == Seq::<(u64, Seq<u8>)>::empty(),
            map.spec_cache_capacity() == max_cache_items,
    {
        Self::with_map(StableBTreeMap::init(memory), max_cache_items)
    }
}

impl<V: Value, B: BTreeMapStructure<V>> CachedBTreeMap<V, B> {
    /// Puts an empty cache of at most `max_cache_items` entries in front
    /// of `inner`.
    pub fn with_map(inner: B, max_cache_items: u32) -> (map: Self)
        requires
            inner.wf(),
        ensures
            map.wf(),
            map@ == inner@,
            map.spec_inner() == inner,
            map.spec_cache() == Seq::<(u64, V::V)>::empty(),
            map.spec_cache_capacity() == max_cache_items,
    {
        let map = Self { inner, cache: LruCache::new(max_cache_items) };
        assert forall|k: u64| (#[trigger] spec_get(map.cache@, k)) is None by {
            if spec_contains(map.cache@, k) {
            }
        }
        map
    }

    /// The backing map.
    pub closed spec fn spec_inner(&self) -> B {
        self.inner
    }

    /// The cached entries, the least recently used first.
    pub closed spec fn spec_cache(&self) -> Seq<(u64, V::V)> {
        self.cache@
    }

    /// The greatest number of entries that the cache keeps.
    pub closed spec fn spec_cache_capacity(&self) -> nat {
        self.cache.spec_capacity()
    }

    /// What the cache holds after a read of `key` that found `found` in
    /// the backing map: a cached key becomes the most recent; a key that
    /// was not cached is cached with what was found, if anything was.
    pub open spec fn spec_cache_after_get(
        cache: Seq<(u64, V::V)>,
        capacity: nat,
        key: u64,
        found: Option<V::V>,
    ) -> Seq<(u64, V::V)> {
        if spec_contains(cache, key) {
            spec_touch(cache, key)
        } else {
            match found {
                Some(value) => spec_insert(cache, capacity, key, value),
                None => cache,
            }
        }
    }

    /// What the cache holds after `entry` was popped from the backing
    /// map: the popped key is no longer cached.
    pub open spec fn spec_cache_after_pop(cache: Seq<(u64, V::V)>, entry: Option<(u64, V)>) -> Seq<
        (u64, V::V),
    > {
        match entry {
            Some((k, _)) => spec_remove(cache, k),
            None => cache,
        }
    }

    /// Drops the cache and gives the backing map back.
    pub fn into_inner(self) -> (inner: B)
        ensures
            inner == self.spec_inner(),
    {
        self.inner
    }

    /// Returns the backing map, for reads that bypass the cache.
    pub fn inner(&self) -> (inner: &B)
        ensures
            *inner == self.spec_inner(),
    {
        &self.inner
    }

    /// The cache is transparent: the map has the entries of its backing
    /// map, and whatever is cached for a key is what the backing map holds
    /// for it. So every read gives what the backing map alone would give.
    pub proof fn lemma_cache_transparent(&self)
        requires
            self.wf(),
        ensures
            self.spec_inner().wf(),
            self@ == self.spec_inner()@,
            spec_coherent(self.spec_cache(), self.spec_inner()@),
    {
    }
}

impl<V: Value, B: BTreeMapStructure<V>> BTreeMapStructure<V> for CachedBTreeMap<V, B> {
    closed spec fn wf(&self) -> bool {
        &&& self.inner.wf()
        &&& self.cache.wf()
        &&& spec_coherent(self.cache@, self.inner@)
    }

    closed spec fn view(&self) -> Map<u64, V::V> {
        self.inner@
    }

    open spec fn spec_accepts(value: V::V) -> bool {
        B::spec_accepts(value)
    }

    proof fn lemma_finite(&self) {
        self.inner.lemma_finite();
    }

    /// On a cache hit the cached value is returned and the backing map is
    /// not asked. On a miss the backing map is asked, and what it holds is
    /// cached before it is returned; that it holds nothing is not cached.
    fn get(&mut self, key: &u64) -> (value: Option<V>)
        ensures
            final(self).spec_inner()@ == old(self).spec_inner()@,
            spec_contains(old(self).spec_cache(), *key) ==> final(self).spec_inner() == old(
                self,
            ).spec_inner(),
            final(self).spec_cache_capacity() == old(self).spec_cache_capacity(),
            final(self).spec_cache() == Self::spec_cache_after_get(
                old(self).spec_cache(),
                old(self).spec_cache_capacity(),
                *key,
                spec_lookup(old(self)@, *key),
            ),
    {
        proof {
            self.cache.lemma_wf();
            lemma_touch(self.cache@, *key);
        }
        match self.cache.get(key) {
            Some(value) => Some(value),
            None => {
                let value = self.inner.get(key);
                match &value {
                    Some(found) => {
                        proof {
                            self.cache.lemma_wf();
                            lemma_insert(self.cache@, self.cache.spec_capacity(), *key, found@);
                        }
                        self.cache.insert(*key, found.duplicate());
                    },
                    None => {},
                }
                value
            },
        }
    }

    /// Writes through: the value goes to the cache and to the backing
    /// map, and the value that the backing map held is returned.
    fn insert(&mut self, key: u64, value: V) -> (previous: Option<V>)
        ensures
            final(self).spec_cache_capacity() == old(self).spec_cache_capacity(),
            final(self).spec_cache() == spec_insert(
                old(self).spec_cache(),
                old(self).spec_cache_capacity(),
                key,
                value@,
            ),
            final(self).spec_cache_capacity() >= 1 ==> spec_get(final(self).spec_cache(), key)
                == Some(value@),
    {
        proof {
            self.cache.lemma_wf();
            lemma_insert(self.cache@, self.cache.spec_capacity(), key, value@);
        }
        self.cache.insert(key, value.duplicate());
        self.inner.insert(key, value)
    }

    /// Removes the key from the cache and from the backing map, and
    /// returns the value that the backing map held.
    fn remove(&mut self, key: &u64) -> (previous: Option<V>)
        ensures
            final(self).spec_cache_capacity() == old(self).spec_cache_capacity(),
            final(self).spec_cache() == spec_remove(old(self).spec_cache(), *key),
            !spec_contains(final(self).spec_cache(), *key),
    {
        proof {
            self.cache.lemma_wf();
            lemma_remove(self.cache@, *key);
        }
        self.cache.remove(key);
        self.inner.remove(key)
    }

    /// Pops from the backing map and removes the popped key from the
    /// cache. The cache is not asked.
    fn pop_first(&mut self) -> (entry: Option<(u64, V)>)
        ensures
            final(self).spec_cache_capacity() == old(self).spec_cache_capacity(),
            final(self).spec_cache() == Self::spec_cache_after_pop(old(self).spec_cache(), entry),
    {
        let entry = self.inner.pop_first();
        match &entry {
            Some((k, _)) => {
                proof {
                    self.cache.lemma_wf();
                    lemma_remove(self.cache@, *k);
                }
                self.cache.remove(k);
            },
            None => {},
        }
        entry
    }

    /// Pops from the backing map and removes the popped key from the
    /// cache. The cache is not asked.
    fn pop_last(&mut self) -> (entry: Option<(u64, V)>)
        ensures
            final(self).spec_cache_capacity() == old(self).spec_cache_capacity(),
            final(self).spec_cache() == Self::spec_cache_after_pop(old(self).spec_cache(), entry),
    {
        let entry = self.inner.pop_last();
        match &entry {
            Some((k, _)) => {
                proof {
                    self.cache.lemma_wf();
                    lemma_remove(self.cache@, *k);
                }
                self.cache.remove(k);
            },
            None => {},
        }
        entry
    }

    fn contains_key(&self, key: &u64) -> (found: bool) {
        if self.cache.contains_key(key) {
            assert(spec_get(self.cache@, *key) is Some);
            true
        } else {
            self.inner.contains_key(key)
        }
    }

    /// Reads the backing map; the cache is not asked and not filled.
    fn first_key_value(&self) -> (entry: Option<(u64, V)>) {
        self.inner.first_key_value()
    }

    /// Reads the backing map; the cache is not asked and not filled.
    fn last_key_value(&self) -> (entry: Option<(u64, V)>) {
        self.inner.last_key_value()
    }

    fn len(&self) -> (len: u64) {
        self.inner.len()
    }

    fn is_empty(&self) -> (empty: bool) {
        if self.cache.is_empty() {
            self.inner.is_empty()
        } else {
            proof {
                let k = self.cache@[0].0;
                assert(spec_contains(self.cache@, k));
                assert(spec_get(self.cache@, k) is Some);
                assert(self.inner@.dom().contains(k));
                self.inner.lemma_finite();
                if self.inner@.len() == 0 {
                    self.inner@.dom().lemma_len0_is_empty();
                    assert(!Set::<u64>::empty().contains(k));
                }
            }
            false
        }
    }

    /// Empties the cache and the backing map.
    fn clear(&mut self)
        ensures
            final(self).spec_cache_capacity() == old(self).spec_cache_capacity(),
            final(self).spec_cache() == Seq::<(u64, V::V)>::empty(),
    {
        self.cache.clear();
        self.inner.clear();
        assert forall|k: u64| (#[trigger] spec_get(self.cache@, k)) is None by {
            if spec_contains(self.cache@, k) {
            }
        }
    }
}

impl<V: Value, B: BTreeMapIteratorStructure<V>> BTreeMapIteratorStructure<V> for CachedBTreeMap<
    V,
    B,
> {
    fn iter(&self) -> (entries: Vec<(u64, V)>) {
        self.inner.iter()
    }

    fn range(&self, key_range: Range<u64>) -> (entries: Vec<(u64, V)>) {
        self.inner.range(key_range)
    }

    fn iter_from_prev_key(&self, bound: &u64) -> (entries: Vec<(u64, V)>) {
        self.inner.iter_from_prev_key(bound)
    }
}

} // verus!

//! An ordered map whose stored values are decoded into a canonical shape
//! on read and encoded in the newest shape on write.

use crate::btreemap::stable::{spec_opened_entries, StableBTreeMap};
use crate::btreemap::structure::{
    spec_entries_view, spec_is_prev_key, spec_is_range, spec_key_limit, spec_no_prev_key,
    BTreeMapIteratorStructure, BTreeMapStructure,
};
use crate::common::codec::Codec;
use crate::common::memory::Region;
use std::marker::PhantomData;
use std::ops::Range;
use vstd::prelude::*;

verus! {

/// The canonical entries that stored entries stand for.
pub open spec fn spec_decoded<V: View, C: Codec<V>>(stored: Map<u64, C::V>) -> Map<u64, V::V> {
    stored.map_values(|c: C::V| C::spec_decode(c))
}

/// Every stored value is one that decoding accepts.
pub open spec fn spec_all_decodable<V: View, C: Codec<V>>(stored: Map<u64, C::V>) -> bool {
    forall|k: u64| stored.contains_key(k) ==> C::spec_decodable(#[trigger] stored[k])
}

/// The canonical entries that a list of stored entries stands for.
pub open spec fn spec_decoded_entries<V: View, C: Codec<V>>(stored: Seq<(u64, C::V)>) -> Seq<
    (u64, V::V),
> {
    stored.map_values(|e: (u64, C::V)| (e.0, C::spec_decode(e.1)))
}

/// The canonical entries have the keys of the stored entries, each with
/// its stored value decoded.
pub proof fn lemma_decoded<V: View, C: Codec<V>>(stored: Map<u64, C::V>)
    ensures
        spec_decoded::<V, C>(stored).dom() == stored.dom(),
        forall|k: u64| #[trigger]
            spec_decoded::<V, C>(stored).contains_key(k) == stored.contains_key(k),
        forall|k: u64|
            stored.contains_key(k) ==> #[trigger] spec_decoded::<V, C>(stored)[k]
                == C::spec_decode(stored[k]),
{
    assert(spec_decoded::<V, C>(stored).dom() =~= stored.dom());
}

/// What is listed of a map whose values can all be decoded can be
/// decoded.
pub proof fn lemma_listed_decodable<V: View, C: Codec<V>>(
    stored: Map<u64, C::V>,
    entries: Seq<(u64, C::V)>,
)
    requires
        spec_all_decodable::<V, C>(stored),
        forall|i: int|
            0 <= i < entries.len() ==> stored.contains_key((#[trigger] entries[i]).0)
                && stored[entries[i].0] == entries[i].1,
    ensures
        forall|i: int| 0 <= i < entries.len() ==> C::spec_decodable((#[trigger] entries[i]).1),
{
    assert forall|i: int| 0 <= i < entries.len() implies C::spec_decodable(
        (#[trigger] entries[i]).1,
    ) by {
        assert(stored.contains_key(entries[i].0));
        assert(C::spec_decodable(stored[entries[i].0]));
    }
}

/// Decoding the values of a range of stored entries gives the same range
/// of the canonical entries.
pub proof fn lemma_decoded_range<V: View, C: Codec<V>>(
    stored: Map<u64, C::V>,
    low: int,
    high: int,
    entries: Seq<(u64, C::V)>,
)
    requires
        spec_is_range(stored, low, high, entries),
    ensures
        spec_is_range(
            spec_decoded::<V, C>(stored),
            low,
            high,
            spec_decoded_entries::<V, C>(entries),
        ),
{
    let decoded = spec_decoded_entries::<V, C>(entries);
    let map = spec_decoded::<V, C>(stored);
    assert forall|i: int, j: int| 0 <= i < j < decoded.len() implies (#[trigger] decoded[i]).0 < (
    #[trigger] decoded[j]).0 by {
        assert(entries[i].0 < entries[j].0);
    }
    assert forall|i: int| 0 <= i < decoded.len() implies {
        &&& low <= (#[trigger] decoded[i]).0 < high
        &&& map.contains_key(decoded[i].0)
        &&& map[decoded[i].0] == decoded[i].1
    } by {
        assert(low <= entries[i].0 < high);
    }
    assert forall|k: u64| map.contains_key(k) && low <= k < high implies exists|i: int|
        0 <= i < decoded.len() && (#[trigger] decoded[i]).0 == k by {
        assert(stored.contains_key(k));
        let i = choose|i: int| 0 <= i < entries.len() && (#[trigger] entries[i]).0 == k;
        assert(decoded[i].0 == k);
    }
}

/// A map over a map of stored values `C`, seen as a map of canonical
/// values `V`.
///
/// The backing map may hold values of several stored shapes. Reading
/// decodes them and leaves the storage as it is; a stored value changes
/// its shape only when its key is written again.
pub struct VersionedBTreeMap<V: View, C: Codec<V>, B: BTreeMapStructure<C>> {
    inner: B,
    phantom_v: PhantomData<(V, C)>,
}

impl<V: View> VersionedBTreeMap<V, Vec<u8>, StableBTreeMap> where Vec<u8>: Codec<V> {
    /// Creates an empty map in `memory`, whatever the region held.
    pub fn new(memory: Region) -> (map: Self)
        ensures
            map.wf(),
            map@ == Map::<u64, V::V>::empty(),
            map.spec_inner()@ == Map::<u64, Seq<u8>>::empty(),
    {
        let map = Self::with_map(StableBTreeMap::new(memory));
        assert(map@ =~= Map::<u64, V::V>::empty());
        map
    }

    /// Opens the map that `memory` holds; an empty region becomes an
    /// empty map. Where the opened map holds a value that cannot be
    /// decoded, the map of bytes is given back as it is.
    ///
    /// The region must be empty or hold a map that this type wrote.
    pub fn init(memory: Region) -> (map: Result<Self, StableBTreeMap>)
        requires
            memory@ is Empty || memory@ is BTreeMap,
        ensures
            map is Ok <==> spec_all_decodable::<V, Vec<u8>>(spec_opened_entries(memory@)),
            memory@ is Empty ==> map is Ok,
            match map {
                Ok(m) => {
                    &&& m.wf()
                    &&& m.spec_inner().wf()
                    &&& m.spec_inner()@ == spec_opened_entries(memory@)
                    &&& m@ == spec_decoded::<V, Vec<u8>>(spec_opened_entries(memory@))
                    &&& memory@ is Empty ==> m@ == Map::<u64, V::V>::empty()
                },
                Err(bytes) => {
                    &&& bytes.wf()
                    &&& bytes@ == spec_opened_entries(memory@)
                },
            },
    {
        let map = Self::try_with_map(StableBTreeMap::init(memory));
        proof {
            if memory@ is Empty && map is Ok {
                assert(map->Ok_0@ =~= Map::<u64, V::V>::empty());
            }
        }
        map
    }
}

impl<V: View, C: Codec<V>, B: BTreeMapStructure<C>> VersionedBTreeMap<V, C, B> {
    /// Wraps a map whose stored values can all be decoded.
    pub fn with_map(map: B) -> (versioned: Self)
        requires
            map.wf(),
            spec_all_decodable::<V, C>(map@),
        ensures
            versioned.wf(),
            versioned@ == spec_decoded::<V, C>(map@),
            versioned.spec_inner() == map,
    {
        Self { inner: map, phantom_v: PhantomData }
    }

    /// The map of stored values underneath.
    pub closed spec fn spec_inner(&self) -> B {
        self.inner
    }

    /// Gives back the map of stored values.
    pub fn into_inner(self) -> (inner: B)
        ensures
            inner == self.spec_inner(),
    {
        self.inner
    }

    /// A map that may be used stores only what can be decoded, and shows
    /// each stored value decoded.
    pub proof fn lemma_decodes_inner(&self)
        requires
            self.wf(),
        ensures
            self.spec_inner().wf(),
            spec_all_decodable::<V, C>(self.spec_inner()@),
            self@ == spec_decoded::<V, C>(self.spec_inner()@),
    {
    }

    /// Decodes what the backing map handed out for a key.
    fn decode_value(stored: Option<C>) -> (value: Option<V>)
        requires
            stored matches Some(c) ==> C::spec_decodable(c@),
        ensures
            match stored {
                Some(c) => value matches Some(v) && v@ == C::spec_decode(c@),
                None => value is None,
            },
    {
        match stored {
            Some(c) => Some(C::decode(c)),
            None => None,
        }
    }

    /// Decodes the entry that the backing map handed out.
    fn decode_entry(stored: Option<(u64, C)>) -> (entry: Option<(u64, V)>)
        requires
            stored matches Some((_, c)) ==> C::spec_decodable(c@),
        ensures
            match stored {
                Some((k, c)) => entry matches Some((k2, v)) && k2 == k && v@ == C::spec_decode(
                    c@,
                ),
                None => entry is None,
            },
    {
        match stored {
            Some((k, c)) => Some((k, C::decode(c))),
            None => None,
        }
    }

    /// Decodes the entries that the backing map handed out, in their
    /// order.
    fn decode_entries(stored: Vec<(u64, C)>) -> (entries: Vec<(u64, V)>)
        requires
            forall|i: int|
                0 <= i < stored@.len() ==> C::spec_decodable(
                    (#[trigger] spec_entries_view(stored@)[i]).1,
                ),
        ensures
            spec_entries_view(entries@) == spec_decoded_entries::<V, C>(
                spec_entries_view(stored@),
            ),
    {
        let ghost all = spec_entries_view(stored@);
        let mut iter: VersionedBTreeMapIter<V, C> = VersionedBTreeMapIter::new(stored);
        let mut entries: Vec<(u64, V)> = Vec::new();
        loop
            invariant
                iter.wf(),
                entries@.len() + iter@.len() == all.len(),
                iter@ == all.subrange(entries@.len() as int, all.len() as int),
                forall|i: int|
                    0 <= i < entries@.len() ==> {
                        &&& (#[trigger] entries@[i]).0 == all[i].0
                        &&& entries@[i].1@ == C::spec_decode(all[i].1)
                    },
            ensures
                entries@.len() == all.len(),
                forall|i: int|
                    0 <= i < entries@.len() ==> {
                        &&& (#[trigger] entries@[i]).0 == all[i].0
                        &&& entries@[i].1@ == C::spec_decode(all[i].1)
                    },
            decreases iter@.len(),
        {
            let ghost done = entries@.len() as int;
            match iter.next() {
                Some(entry) => {
                    assert(iter@ =~= all.subrange(done + 1, all.len() as int));
                    entries.push(entry);
                },
                None => {
                    break ;
                },
            }
        }
        assert(spec_entries_view(entries@) =~= spec_decoded_entries::<V, C>(all));
        entries
    }
}

/// A walk over entries of a versioned map that decodes each stored value
/// when it is handed out.
pub struct VersionedBTreeMapIter<V: View, C: Codec<V>> {
    /// The stored entries that are left, the next one last.
    reversed: Vec<(u64, C)>,
    phantom_v: PhantomData<V>,
}

impl<V: View, C: Codec<V>> VersionedBTreeMapIter<V, C> {
    /// The stored entries that are left, the next one first.
    pub closed spec fn view(&self) -> Seq<(u64, C::V)> {
        Seq::new(
            self.reversed@.len(),
            |i: int|
                (
                    self.reversed@[self.reversed@.len() - 1 - i].0,
                    self.reversed@[self.reversed@.len() - 1 - i].1@,
                ),
        )
    }

    /// Every stored value that is left can be decoded.
    pub open spec fn wf(&self) -> bool {
        forall|i: int| 0 <= i < self@.len() ==> C::spec_decodable((#[trigger] self@[i]).1)
    }

    /// Starts a walk over `stored`, first to last.
    pub fn new(stored: Vec<(u64, C)>) -> (iter: Self)
        requires
            forall|i: int|
                0 <= i < stored@.len() ==> C::spec_decodable(
                    (#[trigger] spec_entries_view(stored@)[i]).1,
                ),
        ensures
            iter.wf(),
            iter@ == spec_entries_view(stored@),
    {
        let mut stored = stored;
        let ghost all = stored@;
        let mut reversed: Vec<(u64, C)> = Vec::new();
        while stored.len() > 0
            invariant
                stored@.len() <= all.len(),
                stored@ == all.subrange(0, stored@.len() as int),
                reversed@.len() == all.len() - stored@.len(),
                forall|i: int|
                    0 <= i < reversed@.len() ==> (#[trigger] reversed@[i]) == all[all.len() - 1
                        - i],
            decreases stored@.len(),
        {
            let ghost at = stored@.len() - 1;
            let last = stored.pop();
            match last {
                Some(entry) => {
                    assert(all[at] == entry);
                    reversed.push(entry);
                },
                None => {},
            }
        }
        let iter = Self { reversed, phantom_v: PhantomData };
        assert(iter@ =~= spec_entries_view(all));
        iter
    }

    /// Hands out the next entry with its value decoded, or nothing at the
    /// end.
    pub fn next(&mut self) -> (entry: Option<(u64, V)>)
        requires
            old(self).wf(),
        ensures
            final(self).wf(),
            match entry {
                Some((k, v)) => {
                    &&& old(self)@.len() > 0
                    &&& k == old(self)@[0].0
                    &&& v@ == C::spec_decode(old(self)@[0].1)
                    &&& final(self)@ == old(self)@.drop_first()
                },
                None => old(self)@.len() == 0 && final(self)@ == old(self)@,
            },
    {
        let ghost before = self@;
        match self.reversed.pop() {
            Some((key, value)) => {
                assert(before[0] == (key, value@));
                assert(self@ =~= before.drop_first());
                assert forall|i: int| 0 <= i < self@.len() implies C::spec_decodable(
                    (#[trigger] self@[i]).1,
                ) by {
                    assert(self@[i] == before[i + 1]);
                }
                Some((key, C::decode(value)))
            },
            None => {
                assert(self@ =~= before);
                None
            },
        }
    }
}

impl<V: View, C: Codec<V>, B: BTreeMapIteratorStructure<C>> VersionedBTreeMap<V, C, B> {
    /// Starts a walk over all the entries in ascending order of the keys,
    /// which decodes each value when it is handed out.
    pub fn iter_lazy(&self) -> (iter: VersionedBTreeMapIter<V, C>)
        requires
            self.wf(),
        ensures
            iter.wf(),
            spec_is_range(self.spec_inner()@, 0, spec_key_limit(), iter@),
    {
        let stored = self.inner.iter();
        proof {
            lemma_listed_decodable::<V, C>(self.inner@, spec_entries_view(stored@));
        }
        VersionedBTreeMapIter::new(stored)
    }

    /// Wraps a map if its stored values can all be decoded, and gives it
    /// back unchanged if not.
    pub fn try_with_map(map: B) -> (versioned: Result<Self, B>)
        requires
            map.wf(),
        ensures
            match versioned {
                Ok(v) => spec_all_decodable::<V, C>(map@) && v.wf() && v@ == spec_decoded::<V, C>(
                    map@,
                ) && v.spec_inner() == map,
                Err(m) => !spec_all_decodable::<V, C>(map@) && m == map,
            },
    {
        let stored = map.iter();
        let mut i: usize = 0;
        while i < stored.len()
            invariant
                i <= stored@.len(),
                spec_is_range(
                    map@,
                    0,
                    spec_key_limit(),
                    spec_entries_view(stored@),
                ),
                forall|j: int|
                    0 <= j < i ==> C::spec_decodable((#[trigger] spec_entries_view(stored@)[j]).1),
            decreases stored@.len() - i,
        {
            if !C::decodable(&stored[i].1) {
                proof {
                    let e = spec_entries_view(stored@)[i as int];
                    assert(map@.contains_key(e.0) && map@[e.0] == e.1);
                }
                return Err(map);
            }
            i = i + 1;
        }
        proof {
            let listed = spec_entries_view(stored@);
            assert forall|k: u64| map@.contains_key(k) implies C::spec_decodable(
                #[trigger] map@[k],
            ) by {
                let j = choose|j: int| 0 <= j < listed.len() && (#[trigger] listed[j]).0 == k;
                assert(C::spec_decodable(listed[j].1));
            }
        }
        Ok(Self { inner: map, phantom_v: PhantomData })
    }
}

impl<V: View, C: Codec<V>, B: BTreeMapStructure<C>> BTreeMapStructure<V> for VersionedBTreeMap<
    V,
    C,
    B,
> {
    closed spec fn wf(&self) -> bool {
        &&& self.inner.wf()
        &&& spec_all_decodable::<V, C>(self.inner@)
    }

    closed spec fn view(&self) -> Map<u64, V::V> {
        spec_decoded::<V, C>(self.inner@)
    }

    open spec fn spec_accepts(value: V::V) -> bool {
        B::spec_accepts(C::spec_encode(value))
    }

    proof fn lemma_finite(&self) {
        self.inner.lemma_finite();
        assert(self@.dom() =~= self.inner@.dom());
    }

    /// Decodes what is stored; the storage stays as it is.
    fn get(&mut self, key: &u64) -> (value: Option<V>)
        ensures
            final(self).spec_inner()@ == old(self).spec_inner()@,
    {
        let stored = self.inner.get(key);
        Self::decode_value(stored)
    }

    /// Stores the value in the newest shape, whatever shape the key held
    /// before.
    fn insert(&mut self, key: u64, value: V) -> (previous: Option<V>)
        ensures
            final(self).spec_inner()@ == old(self).spec_inner()@.insert(
                key,
                C::spec_encode(value@),
            ),
    {
        proof {
            C::lemma_round_trip(value@);
        }
        let stored = self.inner.insert(key, C::encode(value));
        assert(self@ =~= old(self)@.insert(key, value@));
        Self::decode_value(stored)
    }

    fn remove(&mut self, key: &u64) -> (previous: Option<V>)
        ensures
            final(self).spec_inner()@ == old(self).spec_inner()@.remove(*key),
    {
        let stored = self.inner.remove(key);
        assert(self@ =~= old(self)@.remove(*key));
        Self::decode_value(stored)
    }

    /// Removes the stored entry of the least key; the stored shapes of
    /// the other keys stay.
    fn pop_first(&mut self) -> (entry: Option<(u64, V)>)
        ensures
            final(self).spec_inner()@ == match entry {
                Some((k, _)) => old(self).spec_inner()@.remove(k),
                None => old(self).spec_inner()@,
            },
    {
        let stored = self.inner.pop_first();
        proof {
            match stored {
                Some((k, _)) => {
                    assert(self@ =~= old(self)@.remove(k));
                },
                None => {
                    assert(self@ =~= old(self)@);
                },
            }
        }
        Self::decode_entry(stored)
    }

    /// Removes the stored entry of the greatest key; the stored shapes of
    /// the other keys stay.
    fn pop_last(&mut self) -> (entry: Option<(u64, V)>)
        ensures
            final(self).spec_inner()@ == match entry {
                Some((k, _)) => old(self).spec_inner()@.remove(k),
                None => old(self).spec_inner()@,
            },
    {
        let stored = self.inner.pop_last();
        proof {
            match stored {
                Some((k, _)) => {
                    assert(self@ =~= old(self)@.remove(k));
                },
                None => {
                    assert(self@ =~= old(self)@);
                },
            }
        }
        Self::decode_entry(stored)
    }

    fn contains_key(&self, key: &u64) -> (found: bool) {
        self.inner.contains_key(key)
    }

    fn first_key_value(&self) -> (entry: Option<(u64, V)>) {
        Self::decode_entry(self.inner.first_key_value())
    }

    fn last_key_value(&self) -> (entry: Option<(u64, V)>) {
        Self::decode_entry(self.inner.last_key_value())
    }

    fn len(&self) -> (len: u64) {
        proof {
            assert(self@.dom() =~= self.inner@.dom());
        }
        self.inner.len()
    }

    fn is_empty(&self) -> (empty: bool) {
        proof {
            assert(self@.dom() =~= self.inner@.dom());
        }
        self.inner.is_empty()
    }

    /// Removes every stored entry.
    fn clear(&mut self)
        ensures
            final(self).spec_inner()@ == Map::<u64, C::V>::empty(),
    {
        self.inner.clear();
        assert(self@ =~= Map::<u64, V::V>::empty());
    }
}

impl<V: View, C: Codec<V>, B: BTreeMapIteratorStructure<C>> BTreeMapIteratorStructure<
    V,
> for VersionedBTreeMap<V, C, B> {
    fn iter(&self) -> (entries: Vec<(u64, V)>) {
        let stored = self.inner.iter();
        proof {
            lemma_listed_decodable::<V, C>(self.inner@, spec_entries_view(stored@));
            lemma_decoded_range::<V, C>(
                self.inner@,
                0,
                spec_key_limit(),
                spec_entries_view(stored@),
            );
        }
        Self::decode_entries(stored)
    }

    fn range(&self, key_range: Range<u64>) -> (entries: Vec<(u64, V)>) {
        let ghost low = key_range.start as int;
        let ghost high = key_range.end as int;
        let stored = self.inner.range(key_range);
        proof {
            lemma_listed_decodable::<V, C>(self.inner@, spec_entries_view(stored@));
            lemma_decoded_range::<V, C>(self.inner@, low, high, spec_entries_view(stored@));
        }
        Self::decode_entries(stored)
    }

    fn iter_from_prev_key(&self, bound: &u64) -> (entries: Vec<(u64, V)>) {
        let stored = self.inner.iter_from_prev_key(bound);
        proof {
            let listed = spec_entries_view(stored@);
            lemma_decoded::<V, C>(self.inner@);
            lemma_listed_decodable::<V, C>(self.inner@, listed);
            assert forall|p: u64|
                spec_is_prev_key(
                    self@,
                    *bound,
                    p,
                ) implies spec_is_range(
                self@,
                p as int,
                spec_key_limit(),
                spec_decoded_entries::<V, C>(listed),
            ) by {
                assert(spec_is_prev_key(self.inner@, *bound, p));
                lemma_decoded_range::<V, C>(
                    self.inner@,
                    p as int,
                    spec_key_limit(),
                    listed,
                );
            }
            if spec_no_prev_key(self@, *bound) {
                assert(spec_no_prev_key(self.inner@, *bound));
            }
        }
        Self::decode_entries(stored)
    }
}

} // verus!

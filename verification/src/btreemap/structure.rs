//! The contract of an ordered map.

use std::ops::Range;
use vstd::prelude::*;

verus! {

/// The map without entries.
pub open spec fn spec_no_entries<A>() -> Map<u64, A> {
    Map::empty()
}

/// The value found for `key`, where there is one.
pub open spec fn spec_lookup<A>(map: Map<u64, A>, key: u64) -> Option<A> {
    if map.contains_key(key) {
        Some(map[key])
    } else {
        None
    }
}

/// The view of what an operation handed out, where it handed out a value.
pub open spec fn spec_value_view<V: View>(value: Option<V>) -> Option<V::V> {
    match value {
        Some(v) => Some(v@),
        None => None,
    }
}

/// The view of what an operation handed out, where it handed out an entry.
pub open spec fn spec_entry_view<V: View>(entry: Option<(u64, V)>) -> Option<(u64, V::V)> {
    match entry {
        Some((k, v)) => Some((k, v@)),
        None => None,
    }
}

/// The views of the entries that an operation handed out.
pub open spec fn spec_entries_view<V: View>(entries: Seq<(u64, V)>) -> Seq<(u64, V::V)> {
    entries.map_values(|e: (u64, V)| (e.0, e.1@))
}

/// `key` is the least key of the map.
pub open spec fn spec_is_first_key<A>(map: Map<u64, A>, key: u64) -> bool {
    &&& map.contains_key(key)
    &&& forall|k: u64| map.contains_key(k) ==> key <= k
}

/// `key` is the greatest key of the map.
pub open spec fn spec_is_last_key<A>(map: Map<u64, A>, key: u64) -> bool {
    &&& map.contains_key(key)
    &&& forall|k: u64| map.contains_key(k) ==> k <= key
}

/// `key` is the greatest key of the map that is less than `bound`.
pub open spec fn spec_is_prev_key<A>(map: Map<u64, A>, bound: u64, key: u64) -> bool {
    &&& map.contains_key(key)
    &&& key < bound
    &&& forall|k: u64| map.contains_key(k) && k < bound ==> k <= key
}

/// No key of the map is less than `bound`.
pub open spec fn spec_no_prev_key<A>(map: Map<u64, A>, bound: u64) -> bool {
    forall|k: u64| map.contains_key(k) ==> k >= bound
}

/// `entry` is the entry of the least key, or there is no entry and the
/// map is empty.
pub open spec fn spec_is_first<A>(map: Map<u64, A>, entry: Option<(u64, A)>) -> bool {
    match entry {
        Some((k, v)) => spec_is_first_key(map, k) && map[k] == v,
        None => forall|k: u64| !map.contains_key(k),
    }
}

/// `entry` is the entry of the greatest key, or there is no entry and the
/// map is empty.
pub open spec fn spec_is_last<A>(map: Map<u64, A>, entry: Option<(u64, A)>) -> bool {
    match entry {
        Some((k, v)) => spec_is_last_key(map, k) && map[k] == v,
        None => forall|k: u64| !map.contains_key(k),
    }
}

/// `entries` are the entries of the map whose keys lie from `low` up to,
/// but not including, `high`, in ascending order of the keys.
pub open spec fn spec_is_range<A>(
    map: Map<u64, A>,
    low: int,
    high: int,
    entries: Seq<(u64, A)>,
) -> bool {
    &&& forall|i: int, j: int|
        0 <= i < j < entries.len() ==> (#[trigger] entries[i]).0 < (#[trigger] entries[j]).0
    &&& forall|i: int|
        0 <= i < entries.len() ==> {
            &&& low <= (#[trigger] entries[i]).0 < high
            &&& map.contains_key(entries[i].0)
            &&& map[entries[i].0] == entries[i].1
        }
    &&& forall|k: u64|
        map.contains_key(k) && low <= k < high ==> exists|i: int|
            0 <= i < entries.len() && (#[trigger] entries[i]).0 == k
}

/// The bound above every key.
pub open spec fn spec_key_limit() -> int {
    u64::MAX + 1
}

/// `entries` are what an iteration from the key before `bound` yields:
/// entries of the map, namely those from the greatest key less than
/// `bound` on, in ascending order, and nothing where no key is less than
/// `bound`.
pub open spec fn spec_is_from_prev_key<A>(
    map: Map<u64, A>,
    bound: u64,
    entries: Seq<(u64, A)>,
) -> bool {
    &&& spec_no_prev_key(map, bound) ==> entries.len() == 0
    &&& forall|i: int|
        0 <= i < entries.len() ==> map.contains_key((#[trigger] entries[i]).0) && map[entries[i].0]
            == entries[i].1
    &&& forall|p: u64|
        spec_is_prev_key(map, bound, p) ==> spec_is_range(
            map,
            p as int,
            spec_key_limit(),
            entries,
        )
}

/// The entries after each of `entries` was inserted in turn.
pub open spec fn spec_insert_all<A>(map: Map<u64, A>, entries: Seq<(u64, A)>) -> Map<u64, A>
    decreases entries.len(),
{
    if entries.len() == 0 {
        map
    } else {
        spec_insert_all(map, entries.drop_last()).insert(entries.last().0, entries.last().1)
    }
}

/// What was inserted for a key is found for it, whatever is inserted for
/// other keys afterwards.
pub proof fn lemma_get_after_insert<A>(
    map: Map<u64, A>,
    key: u64,
    value: A,
    later: Seq<(u64, A)>,
)
    requires
        forall|i: int| 0 <= i < later.len() ==> (#[trigger] later[i]).0 != key,
    ensures
        spec_lookup(spec_insert_all(map.insert(key, value), later), key) == Some(value),
    decreases later.len(),
{
    if later.len() > 0 {
        let before = later.drop_last();
        assert forall|i: int| 0 <= i < before.len() implies (#[trigger] before[i]).0 != key by {
            assert(before[i] == later[i]);
        }
        lemma_get_after_insert(map, key, value, before);
        assert(later.last() == later[later.len() - 1]);
    }
}

/// Nothing is found for a key that was removed, and the other keys keep
/// what they had.
pub proof fn lemma_get_after_remove<A>(map: Map<u64, A>, key: u64)
    ensures
        spec_lookup(map.remove(key), key) is None,
        forall|k: u64| k != key ==> #[trigger] spec_lookup(map.remove(key), k) == spec_lookup(map, k),
{
}

/// A map from 64-bit keys to values of type `V`, one value for a key,
/// with the keys in their order as integers.
///
/// The model of a map is the finite map from its keys to the views of
/// their values.
pub trait BTreeMapStructure<V: View> {
    /// The map is in a state in which its operations may be called.
    spec fn wf(&self) -> bool;

    /// The entries: each key with the view of its value.
    spec fn view(&self) -> Map<u64, V::V>;

    /// Whether a value is one that a map of this type can store.
    spec fn spec_accepts(value: V::V) -> bool;

    /// A map that may be used has finitely many entries.
    proof fn lemma_finite(&self)
        requires
            self.wf(),
        ensures
            self@.dom().finite(),
    ;

    /// Returns the value associated with `key`.
    ///
    /// The entries stay as they are; a map that keeps a cache may update
    /// it.
    fn get(&mut self, key: &u64) -> (value: Option<V>)
        requires
            old(self).wf(),
        ensures
            final(self).wf(),
            final(self)@ == old(self)@,
            spec_value_view(value) == spec_lookup(old(self)@, *key),
    ;

    /// Adds or replaces the value associated with `key` and returns the
    /// value that was replaced.
    fn insert(&mut self, key: u64, value: V) -> (previous: Option<V>)
        requires
            old(self).wf(),
            Self::spec_accepts(value@),
        ensures
            final(self).wf(),
            final(self)@ == old(self)@.insert(key, value@),
            spec_value_view(previous) == spec_lookup(old(self)@, key),
    ;

    /// Removes the value associated with `key` and returns it.
    fn remove(&mut self, key: &u64) -> (previous: Option<V>)
        requires
            old(self).wf(),
        ensures
            final(self).wf(),
            final(self)@ == old(self)@.remove(*key),
            spec_value_view(previous) == spec_lookup(old(self)@, *key),
    ;

    /// Removes and returns the entry of the least key.
    fn pop_first(&mut self) -> (entry: Option<(u64, V)>)
        requires
            old(self).wf(),
        ensures
            final(self).wf(),
            spec_is_first(old(self)@, spec_entry_view(entry)),
            match entry {
                Some((k, _)) => final(self)@ == old(self)@.remove(k),
                None => final(self)@ == old(self)@,
            },
    ;

    /// Removes and returns the entry of the greatest key.
    fn pop_last(&mut self) -> (entry: Option<(u64, V)>)
        requires
            old(self).wf(),
        ensures
            final(self).wf(),
            spec_is_last(old(self)@, spec_entry_view(entry)),
            match entry {
                Some((k, _)) => final(self)@ == old(self)@.remove(k),
                None => final(self)@ == old(self)@,
            },
    ;

    /// Returns whether the map has an entry for `key`.
    fn contains_key(&self, key: &u64) -> (found: bool)
        requires
            self.wf(),
        ensures
            found == self@.contains_key(*key),
    ;

    /// Returns the entry of the least key.
    fn first_key_value(&self) -> (entry: Option<(u64, V)>)
        requires
            self.wf(),
        ensures
            spec_is_first(self@, spec_entry_view(entry)),
    ;

    /// Returns the entry of the greatest key.
    fn last_key_value(&self) -> (entry: Option<(u64, V)>)
        requires
            self.wf(),
        ensures
            spec_is_last(self@, spec_entry_view(entry)),
    ;

    /// Returns the number of entries.
    fn len(&self) -> (len: u64)
        requires
            self.wf(),
        ensures
            len == self@.len(),
    ;

    /// Returns whether the map has no entry.
    fn is_empty(&self) -> (empty: bool)
        requires
            self.wf(),
        ensures
            empty == (self@.len() == 0),
            empty == (forall|k: u64| !self@.contains_key(k)),
    ;

    /// Removes all entries from the map.
    fn clear(&mut self)
        requires
            old(self).wf(),
        ensures
            final(self).wf(),
            final(self)@ == spec_no_entries::<V::V>(),
    ;
}

/// An ordered map whose entries can be listed in the order of the keys.
pub trait BTreeMapIteratorStructure<V: View>: BTreeMapStructure<V> {
    /// Returns all the entries, in ascending order of the keys.
    fn iter(&self) -> (entries: Vec<(u64, V)>)
        requires
            self.wf(),
        ensures
            spec_is_range(self@, 0, spec_key_limit(), spec_entries_view(entries@)),
    ;

    /// Returns the entries whose keys lie in `key_range`, in ascending
    /// order of the keys.
    fn range(&self, key_range: Range<u64>) -> (entries: Vec<(u64, V)>)
        requires
            self.wf(),
        ensures
            spec_is_range(
                self@,
                key_range.start as int,
                key_range.end as int,
                spec_entries_view(entries@),
            ),
    ;

    /// Returns the entries from the key just before `bound` on: from the
    /// greatest key that is less than `bound`, in ascending order of the
    /// keys. Returns nothing where no key is less than `bound`.
    ///
    /// A range that starts at `bound` would leave that entry out.
    fn iter_from_prev_key(&self, bound: &u64) -> (entries: Vec<(u64, V)>)
        requires
            self.wf(),
        ensures
            spec_is_from_prev_key(self@, *bound, spec_entries_view(entries@)),
    ;
}

} // verus!

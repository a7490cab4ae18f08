//! A cache of bounded size that forgets the entry used least recently.

use crate::common::value::Value;
use vstd::prelude::*;

verus! {

/// Whether `key` has an entry.
pub open spec fn spec_contains<A>(entries: Seq<(u64, A)>, key: u64) -> bool {
    exists|i: int| 0 <= i < entries.len() && (#[trigger] entries[i]).0 == key
}

/// The place of the entry of `key`, where it has one.
pub open spec fn spec_index_of<A>(entries: Seq<(u64, A)>, key: u64) -> int {
    choose|i: int| 0 <= i < entries.len() && (#[trigger] entries[i]).0 == key
}

/// No key has two entries.
pub open spec fn spec_distinct<A>(entries: Seq<(u64, A)>) -> bool {
    forall|i: int, j: int|
        0 <= i < j < entries.len() ==> (#[trigger] entries[i]).0 != (#[trigger] entries[j]).0
}

/// The value cached for `key`, where there is one.
pub open spec fn spec_get<A>(entries: Seq<(u64, A)>, key: u64) -> Option<A> {
    if spec_contains(entries, key) {
        Some(entries[spec_index_of(entries, key)].1)
    } else {
        None
    }
}

/// The entries after `key` was used: its entry, where it has one, becomes
/// the most recent.
pub open spec fn spec_touch<A>(entries: Seq<(u64, A)>, key: u64) -> Seq<(u64, A)> {
    if spec_contains(entries, key) {
        let i = spec_index_of(entries, key);
        entries.remove(i).push(entries[i])
    } else {
        entries
    }
}

/// The entries without the one of `key`.
pub open spec fn spec_remove<A>(entries: Seq<(u64, A)>, key: u64) -> Seq<(u64, A)> {
    if spec_contains(entries, key) {
        entries.remove(spec_index_of(entries, key))
    } else {
        entries
    }
}

/// The entries after `value` was cached for `key` in a cache of
/// `capacity` entries: the new entry is the most recent; it replaces the
/// entry of `key` where there was one, and else pushes out the least
/// recent entry of a full cache. A cache of no capacity keeps nothing.
pub open spec fn spec_insert<A>(entries: Seq<(u64, A)>, capacity: nat, key: u64, value: A) -> Seq<
    (u64, A),
> {
    if capacity == 0 {
        entries
    } else if spec_contains(entries, key) {
        entries.remove(spec_index_of(entries, key)).push((key, value))
    } else if entries.len() >= capacity {
        entries.remove(0).push((key, value))
    } else {
        entries.push((key, value))
    }
}

/// In a list where no key has two entries, the entry of a key is found at
/// one place only.
pub proof fn lemma_index_unique<A>(entries: Seq<(u64, A)>, key: u64, i: int)
    requires
        spec_distinct(entries),
        0 <= i < entries.len(),
        entries[i].0 == key,
    ensures
        spec_contains(entries, key),
        spec_index_of(entries, key) == i,
        spec_get(entries, key) == Some(entries[i].1),
{
    let j = spec_index_of(entries, key);
    assert(0 <= j < entries.len() && entries[j].0 == key);
    if i < j {
        assert(entries[i].0 != entries[j].0);
    } else if j < i {
        assert(entries[j].0 != entries[i].0);
    }
}

/// Removing an entry keeps the keys distinct, and what stays is found
/// where it was, one place lower behind the gap.
pub proof fn lemma_remove_distinct<A>(entries: Seq<(u64, A)>, i: int)
    requires
        spec_distinct(entries),
        0 <= i < entries.len(),
    ensures
        spec_distinct(entries.remove(i)),
        !spec_contains(entries.remove(i), entries[i].0),
        forall|k: u64|
            k != entries[i].0 ==> spec_get(entries.remove(i), k) == #[trigger] spec_get(entries, k),
{
    let rest = entries.remove(i);
    assert forall|a: int, b: int| 0 <= a < b < rest.len() implies (#[trigger] rest[a]).0 != (
    #[trigger] rest[b]).0 by {
        let a0 = if a < i {
            a
        } else {
            a + 1
        };
        let b0 = if b < i {
            b
        } else {
            b + 1
        };
        assert(rest[a] == entries[a0]);
        assert(rest[b] == entries[b0]);
        assert(entries[a0].0 != entries[b0].0);
    }
    if spec_contains(rest, entries[i].0) {
        let j = spec_index_of(rest, entries[i].0);
        let j0 = if j < i {
            j
        } else {
            j + 1
        };
        assert(rest[j] == entries[j0]);
        if j0 < i {
            assert(entries[j0].0 != entries[i].0);
        } else {
            assert(entries[i].0 != entries[j0].0);
        }
    }
    assert forall|k: u64| k != entries[i].0 implies spec_get(rest, k) == #[trigger] spec_get(
        entries,
        k,
    ) by {
        if spec_contains(entries, k) {
            let j0 = spec_index_of(entries, k);
            let j = if j0 < i {
                j0
            } else {
                j0 - 1
            };
            assert(rest[j] == entries[j0]);
            lemma_index_unique(rest, k, j);
        } else if spec_contains(rest, k) {
            let j = spec_index_of(rest, k);
            let j0 = if j < i {
                j
            } else {
                j + 1
            };
            assert(rest[j] == entries[j0]);
            assert(entries[j0].0 == k);
        }
    }
}

/// Appending an entry for a key that has none keeps the keys distinct and
/// changes what is found for that key only.
pub proof fn lemma_push_distinct<A>(entries: Seq<(u64, A)>, key: u64, value: A)
    requires
        spec_distinct(entries),
        !spec_contains(entries, key),
    ensures
        spec_distinct(entries.push((key, value))),
        spec_get(entries.push((key, value)), key) == Some(value),
        forall|k: u64|
            k != key ==> spec_get(entries.push((key, value)), k) == #[trigger] spec_get(entries, k),
{
    let more = entries.push((key, value));
    assert forall|a: int, b: int| 0 <= a < b < more.len() implies (#[trigger] more[a]).0 != (
    #[trigger] more[b]).0 by {
        if b == entries.len() {
            assert(more[a] == entries[a]);
            assert(entries[a].0 != key);
        } else {
            assert(more[a] == entries[a]);
            assert(more[b] == entries[b]);
        }
    }
    assert(more[entries.len() as int].0 == key);
    lemma_index_unique(more, key, entries.len() as int);
    assert forall|k: u64| k != key implies spec_get(more, k) == #[trigger] spec_get(
        entries,
        k,
    ) by {
        if spec_contains(entries, k) {
            let j = spec_index_of(entries, k);
            assert(more[j] == entries[j]);
            lemma_index_unique(more, k, j);
        } else if spec_contains(more, k) {
            let j = spec_index_of(more, k);
            assert(j < entries.len());
            assert(more[j] == entries[j]);
        }
    }
}

/// What a cache of `capacity` entries holds after `value` was cached for
/// `key`: the value for `key`, and for every other key what it held
/// before or nothing.
pub proof fn lemma_insert<A>(entries: Seq<(u64, A)>, capacity: nat, key: u64, value: A)
    requires
        spec_distinct(entries),
        entries.len() <= capacity,
    ensures
        spec_distinct(spec_insert(entries, capacity, key, value)),
        spec_insert(entries, capacity, key, value).len() <= capacity,
        capacity >= 1 ==> spec_get(spec_insert(entries, capacity, key, value), key) == Some(value),
        forall|k: u64|
            k != key ==> {
                ||| #[trigger] spec_get(spec_insert(entries, capacity, key, value), k) == spec_get(
                    entries,
                    k,
                )
                ||| spec_get(spec_insert(entries, capacity, key, value), k) is None
            },
{
    if capacity == 0 {
    } else if spec_contains(entries, key) {
        let i = spec_index_of(entries, key);
        lemma_remove_distinct(entries, i);
        lemma_push_distinct(entries.remove(i), key, value);
    } else if entries.len() >= capacity {
        lemma_remove_distinct(entries, 0);
        let rest = entries.remove(0);
        if spec_contains(rest, key) {
            let j = spec_index_of(rest, key);
            assert(rest[j] == entries[j + 1]);
        }
        lemma_push_distinct(rest, key, value);
        assert forall|k: u64| k != key implies {
            ||| #[trigger] spec_get(spec_insert(entries, capacity, key, value), k) == spec_get(
                entries,
                k,
            )
            ||| spec_get(spec_insert(entries, capacity, key, value), k) is None
        } by {
            if k != entries[0].0 {
                assert(spec_get(rest, k) == spec_get(entries, k));
            }
        }
    } else {
        lemma_push_distinct(entries, key, value);
    }
}

/// Using a key changes the order of the entries and nothing of what is
/// found.
pub proof fn lemma_touch<A>(entries: Seq<(u64, A)>, key: u64)
    requires
        spec_distinct(entries),
    ensures
        spec_distinct(spec_touch(entries, key)),
        spec_touch(entries, key).len() == entries.len(),
        forall|k: u64| #[trigger] spec_get(spec_touch(entries, key), k) == spec_get(entries, k),
{
    if spec_contains(entries, key) {
        let i = spec_index_of(entries, key);
        lemma_index_unique(entries, key, i);
        lemma_remove_distinct(entries, i);
        lemma_push_distinct(entries.remove(i), key, entries[i].1);
        assert(entries[i] == (key, entries[i].1));
        assert forall|k: u64| #[trigger]
            spec_get(spec_touch(entries, key), k) == spec_get(entries, k) by {
            if k != key {
                assert(spec_get(entries.remove(i), k) == spec_get(entries, k));
            }
        }
    }
}

/// Removing a key leaves nothing for it and changes no other key.
pub proof fn lemma_remove<A>(entries: Seq<(u64, A)>, key: u64)
    requires
        spec_distinct(entries),
    ensures
        spec_distinct(spec_remove(entries, key)),
        spec_remove(entries, key).len() <= entries.len(),
        spec_get(spec_remove(entries, key), key) is None,
        forall|k: u64|
            k != key ==> #[trigger] spec_get(spec_remove(entries, key), k) == spec_get(entries, k),
{
    if spec_contains(entries, key) {
        let i = spec_index_of(entries, key);
        lemma_remove_distinct(entries, i);
        assert forall|k: u64| k != key implies #[trigger] spec_get(spec_remove(entries, key), k)
            == spec_get(entries, k) by {
            assert(spec_get(entries.remove(i), k) == spec_get(entries, k));
        }
    }
}

/// A cache of at most `capacity` entries, keyed by 64-bit integers.
///
/// The model is the list of the entries, the least recently used first.
pub struct LruCache<V: Value> {
    entries: Vec<(u64, V)>,
    capacity: usize,
}

impl<V: Value> LruCache<V> {
    /// The entries, the least recently used first, each value by its view.
    pub closed spec fn view(&self) -> Seq<(u64, V::V)> {
        self.entries@.map_values(|e: (u64, V)| (e.0, e.1@))
    }

    /// The greatest number of entries that the cache keeps.
    pub closed spec fn spec_capacity(&self) -> nat {
        self.capacity as nat
    }

    /// The cache holds at most one entry for a key and no more entries
    /// than its capacity.
    pub closed spec fn wf(&self) -> bool {
        &&& spec_distinct(self@)
        &&& self@.len() <= self.capacity
    }

    /// What `wf` says, for those who cannot see inside.
    pub proof fn lemma_wf(&self)
        requires
            self.wf(),
        ensures
            spec_distinct(self@),
            self@.len() <= self.spec_capacity(),
    {
    }

    /// Creates an empty cache that keeps at most `max_items` entries.
    pub fn new(max_items: u32) -> (cache: Self)
        ensures
            cache.wf(),
            cache@ == Seq::<(u64, V::V)>::empty(),
            cache.spec_capacity() == max_items,
    {
        let cache = Self { entries: Vec::new(), capacity: max_items as usize };
        assert(cache@ =~= Seq::<(u64, V::V)>::empty());
        cache
    }

    /// The place of the entry of `key`.
    fn find(&self, key: &u64) -> (found: Option<usize>)
        requires
            self.wf(),
        ensures
            match found {
                Some(i) => i < self@.len() && self@[i as int].0 == *key && spec_contains(
                    self@,
                    *key,
                ) && spec_index_of(self@, *key) == i,
                None => !spec_contains(self@, *key),
            },
    {
        let mut i: usize = 0;
        while i < self.entries.len()
            invariant
                self.wf(),
                i <= self.entries@.len(),
                self@.len() == self.entries@.len(),
                forall|j: int| 0 <= j < i ==> (#[trigger] self@[j]).0 != *key,
            decreases self.entries@.len() - i,
        {
            if self.entries[i].0 == *key {
                proof {
                    lemma_index_unique(self@, *key, i as int);
                }
                return Some(i);
            }
            i = i + 1;
        }
        None
    }

    /// Returns the value cached for `key` and makes its entry the most
    /// recent.
    pub fn get(&mut self, key: &u64) -> (value: Option<V>)
        requires
            old(self).wf(),
        ensures
            final(self).wf(),
            final(self).spec_capacity() == old(self).spec_capacity(),
            final(self)@ == spec_touch(old(self)@, *key),
            match value {
                Some(v) => spec_get(old(self)@, *key) == Some(v@),
                None => spec_get(old(self)@, *key) is None,
            },
    {
        proof {
            lemma_touch(self@, *key);
        }
        match self.find(key) {
            Some(i) => {
                let entry = self.entries.remove(i);
                let value = entry.1.duplicate();
                self.entries.push(entry);
                assert(self@ =~= spec_touch(old(self)@, *key));
                Some(value)
            },
            None => None,
        }
    }

    /// Returns the value cached for `key` and makes its entry the most
    /// recent. Where nothing is cached, `compute` is asked for the value,
    /// and what it gives is cached before it is returned.
    pub fn get_or_insert_with<F: FnOnce(&u64) -> Option<V>>(&mut self, key: &u64, compute: F) -> (value:
        Option<V>)
        requires
            old(self).wf(),
            call_requires(compute, (key,)),
        ensures
            final(self).wf(),
            final(self).spec_capacity() == old(self).spec_capacity(),
            spec_contains(old(self)@, *key) ==> {
                &&& final(self)@ == spec_touch(old(self)@, *key)
                &&& value matches Some(v)
                &&& spec_get(old(self)@, *key) == Some(v@)
            },
            !spec_contains(old(self)@, *key) ==> {
                &&& call_ensures(compute, (key,), value)
                &&& match value {
                    Some(v) => final(self)@ == spec_insert(
                        old(self)@,
                        old(self).spec_capacity(),
                        *key,
                        v@,
                    ),
                    None => final(self)@ == old(self)@,
                }
            },
    {
        match self.get(key) {
            Some(value) => Some(value),
            None => {
                let computed = compute(key);
                match &computed {
                    Some(value) => {
                        self.insert(*key, value.duplicate());
                    },
                    None => {},
                }
                computed
            },
        }
    }

    /// Caches `value` for `key` as the most recent entry and returns the
    /// value that was cached for the key before. A full cache forgets its
    /// least recent entry to make room.
    pub fn insert(&mut self, key: u64, value: V) -> (previous: Option<V>)
        requires
            old(self).wf(),
        ensures
            final(self).wf(),
            final(self).spec_capacity() == old(self).spec_capacity(),
            final(self)@ == spec_insert(old(self)@, old(self).spec_capacity(), key, value@),
            match previous {
                Some(v) => spec_get(old(self)@, key) == Some(v@),
                None => spec_get(old(self)@, key) is None,
            },
    {
        proof {
            lemma_insert(self@, self.spec_capacity(), key, value@);
        }
        if self.capacity == 0 {
            return None;
        }
        match self.find(&key) {
            Some(i) => {
                let entry = self.entries.remove(i);
                self.entries.push((key, value));
                assert(self@ =~= spec_insert(old(self)@, old(self).spec_capacity(), key, value@));
                Some(entry.1)
            },
            None => {
                if self.entries.len() >= self.capacity {
                    self.entries.remove(0);
                }
                self.entries.push((key, value));
                assert(self@ =~= spec_insert(old(self)@, old(self).spec_capacity(), key, value@));
                None
            },
        }
    }

    /// Forgets the entry of `key` and returns the value that was cached.
    pub fn remove(&mut self, key: &u64) -> (previous: Option<V>)
        requires
            old(self).wf(),
        ensures
            final(self).wf(),
            final(self).spec_capacity() == old(self).spec_capacity(),
            final(self)@ == spec_remove(old(self)@, *key),
            match previous {
                Some(v) => spec_get(old(self)@, *key) == Some(v@),
                None => spec_get(old(self)@, *key) is None,
            },
    {
        proof {
            lemma_remove(self@, *key);
        }
        match self.find(key) {
            Some(i) => {
                let entry = self.entries.remove(i);
                assert(self@ =~= spec_remove(old(self)@, *key));
                Some(entry.1)
            },
            None => None,
        }
    }

    /// Returns whether a value is cached for `key`. The order of the
    /// entries stays.
    pub fn contains_key(&self, key: &u64) -> (found: bool)
        requires
            self.wf(),
        ensures
            found == spec_contains(self@, *key),
    {
        self.find(key).is_some()
    }

    /// Returns whether the cache holds no entry.
    pub fn is_empty(&self) -> (empty: bool)
        ensures
            empty == (self@.len() == 0),
    {
        self.entries.len() == 0
    }

    /// Returns the number of entries.
    pub fn len(&self) -> (len: usize)
        ensures
            len == self@.len(),
    {
        self.entries.len()
    }

    /// Forgets every entry.
    pub fn clear(&mut self)
        requires
            old(self).wf(),
        ensures
            final(self).wf(),
            final(self).spec_capacity() == old(self).spec_capacity(),
            final(self)@ == Seq::<(u64, V::V)>::empty(),
    {
        self.entries.clear();
        assert(self@ =~= Seq::<(u64, V::V)>::empty());
    }
}

} // verus!

use ic_mple_structures::common::LruCache;

#[test]
fn lru_evicts_least_recently_used() {
    let mut cache: LruCache<u64> = LruCache::new(2);
    assert!(cache.is_empty());
    assert_eq!(cache.insert(1, 10), None);
    assert_eq!(cache.insert(2, 20), None);
    assert_eq!(cache.len(), 2);
    // Key 1 becomes the most recent, so key 2 goes when key 3 comes.
    assert_eq!(cache.get(&1), Some(10));
    assert_eq!(cache.insert(3, 30), None);
    assert_eq!(cache.len(), 2);
    assert!(cache.contains_key(&1));
    assert!(!cache.contains_key(&2));
    assert!(cache.contains_key(&3));
    assert_eq!(cache.get(&2), None);
}

#[test]
fn lru_insert_returns_prior_value_and_refreshes() {
    let mut cache: LruCache<u64> = LruCache::new(2);
    assert_eq!(cache.insert(1, 10), None);
    assert_eq!(cache.insert(2, 20), None);
    assert_eq!(cache.insert(1, 11), Some(10));
    assert_eq!(cache.len(), 2);
    assert_eq!(cache.insert(3, 30), None);
    assert_eq!(cache.get(&1), Some(11));
    assert_eq!(cache.get(&2), None);
    assert_eq!(cache.get(&3), Some(30));
}

#[test]
fn lru_contains_key_does_not_refresh() {
    let mut cache: LruCache<u64> = LruCache::new(2);
    cache.insert(1, 10);
    cache.insert(2, 20);
    assert!(cache.contains_key(&1));
    cache.insert(3, 30);
    assert!(!cache.contains_key(&1));
    assert!(cache.contains_key(&2));
}

#[test]
fn lru_remove_and_clear() {
    let mut cache: LruCache<Vec<u8>> = LruCache::new(3);
    cache.insert(1, vec![1u8]);
    cache.insert(2, vec![2u8]);
    assert_eq!(cache.remove(&1), Some(vec![1u8]));
    assert_eq!(cache.remove(&1), None);
    assert_eq!(cache.len(), 1);
    assert!(!cache.is_empty());
    cache.clear();
    assert!(cache.is_empty());
    assert_eq!(cache.get(&2), None);
    assert_eq!(cache.insert(2, vec![3u8]), None);
}

#[test]
fn lru_get_or_insert_with_computes_on_miss_only() {
    let mut cache: LruCache<u64> = LruCache::new(2);
    assert_eq!(cache.get_or_insert_with(&1, |key| Some(*key * 10)), Some(10));
    // A hit does not ask again.
    assert_eq!(cache.get_or_insert_with(&1, |_| Some(99)), Some(10));
    // Nothing computed, nothing cached.
    assert_eq!(cache.get_or_insert_with(&2, |_| None), None);
    assert!(!cache.contains_key(&2));
    assert_eq!(cache.len(), 1);
    assert_eq!(cache.get_or_insert_with(&2, |_| Some(20)), Some(20));
    // The hit on key 1 made it the most recent; a third key pushes key 2 out.
    assert_eq!(cache.get_or_insert_with(&1, |_| None), Some(10));
    assert_eq!(cache.get_or_insert_with(&3, |_| Some(30)), Some(30));
    assert!(cache.contains_key(&1));
    assert!(!cache.contains_key(&2));
    assert!(cache.contains_key(&3));
}

#[test]
fn lru_of_no_capacity_keeps_nothing() {
    let mut cache: LruCache<u64> = LruCache::new(0);
    assert_eq!(cache.insert(1, 10), None);
    assert!(cache.is_empty());
    assert_eq!(cache.get(&1), None);
    assert_eq!(cache.get_or_insert_with(&1, |_| Some(5)), Some(5));
    assert!(cache.is_empty());
}

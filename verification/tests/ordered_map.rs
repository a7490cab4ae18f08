use ic_mple_structures::btreemap::{BTreeMapIteratorStructure, BTreeMapStructure, StableBTreeMap};
use ic_mple_structures::common::Region;

fn map_with_keys(keys: &[u64]) -> StableBTreeMap {
    let mut map = StableBTreeMap::new(Region::new());
    for key in keys {
        map.insert(*key, vec![*key as u8]);
    }
    map
}

#[test]
fn get_after_insert_and_after_remove() {
    let mut map = StableBTreeMap::new(Region::new());
    assert_eq!(map.insert(5, vec![1u8, 2, 3]), None);
    assert_eq!(map.insert(6, vec![]), None);
    assert_eq!(map.get(&5), Some(vec![1u8, 2, 3]));
    assert_eq!(map.get(&6), Some(vec![]));
    assert_eq!(map.insert(5, vec![9u8]), Some(vec![1u8, 2, 3]));
    assert_eq!(map.get(&5), Some(vec![9u8]));
    assert_eq!(map.remove(&5), Some(vec![9u8]));
    assert_eq!(map.get(&5), None);
    assert_eq!(map.remove(&5), None);
    assert_eq!(map.len(), 1);
}

#[test]
fn iter_from_prev_key_starts_one_key_before_bound() {
    let map = map_with_keys(&[1, 2, 3]);
    assert_eq!(map.iter_from_prev_key(&3), vec![(2, vec![2u8]), (3, vec![3u8])]);
    assert_eq!(map.iter_from_prev_key(&1), vec![]);
    assert_eq!(map.iter_from_prev_key(&0), vec![]);
    assert_eq!(
        map.iter_from_prev_key(&2),
        vec![(1, vec![1u8]), (2, vec![2u8]), (3, vec![3u8])]
    );
    assert_eq!(map.iter_from_prev_key(&100), vec![(3, vec![3u8])]);
}

#[test]
fn range_leaves_out_the_key_before_its_start() {
    let map = map_with_keys(&[1, 2, 3]);
    assert_eq!(map.range(3..u64::MAX), vec![(3, vec![3u8])]);
    assert_eq!(map.range(2..3), vec![(2, vec![2u8])]);
    assert_eq!(map.range(2..2), vec![]);
    assert_eq!(map.range(4..9), vec![]);
}

#[test]
fn iter_lists_in_ascending_key_order() {
    let map = map_with_keys(&[30, 10, 20, 10]);
    assert_eq!(
        map.iter(),
        vec![(10, vec![10u8]), (20, vec![20u8]), (30, vec![30u8])]
    );
}

#[test]
fn pop_first_and_pop_last_take_the_ends() {
    let mut map = map_with_keys(&[8, 3, 5]);
    assert_eq!(map.first_key_value(), Some((3, vec![3u8])));
    assert_eq!(map.last_key_value(), Some((8, vec![8u8])));
    assert_eq!(map.pop_first(), Some((3, vec![3u8])));
    assert_eq!(map.pop_last(), Some((8, vec![8u8])));
    assert_eq!(map.pop_last(), Some((5, vec![5u8])));
    assert_eq!(map.pop_first(), None);
    assert_eq!(map.pop_last(), None);
    assert!(map.is_empty());
}

#[test]
fn clear_empties_a_reopened_map() {
    let memory = {
        let mut map = StableBTreeMap::new(Region::new());
        map.insert(1, vec![1u8]);
        map.insert(2, vec![2u8]);
        map.into_memory()
    };
    let mut map = StableBTreeMap::init(memory);
    assert_eq!(map.len(), 2);
    assert_eq!(map.get(&2), Some(vec![2u8]));
    map.clear();
    assert_eq!(map.len(), 0);
    assert!(map.is_empty());
    assert_eq!(map.get(&1), None);
    assert!(!map.contains_key(&2));
    let reopened = StableBTreeMap::init(map.into_memory());
    assert!(reopened.is_empty());
    let fresh = StableBTreeMap::init(Region::new());
    assert!(fresh.is_empty());
}

use ic_mple_structures::vec::{VecExt, VecStructure};
use ic_mple_structures::common::Region;

#[test]
fn vec_works() {
    let mut vec = VecExt::init(Region::new());

    assert!(vec.is_empty());
    assert_eq!(vec.len(), 0);
    assert_eq!(vec.get(0), None);

    vec.push(&1);
    assert!(!vec.is_empty());
    assert_eq!(vec.len(), 1);
    assert_eq!(vec.get(0), Some(1));
    assert_eq!(vec.get(1), None);

    vec.push(&2);
    assert!(!vec.is_empty());
    assert_eq!(vec.len(), 2);
    assert_eq!(vec.get(0), Some(1));
    assert_eq!(vec.get(1), Some(2));
    assert_eq!(vec.get(2), None);

    assert_eq!(vec.pop(), Some(2));
    assert!(!vec.is_empty());
    assert_eq!(vec.len(), 1);
    assert_eq!(vec.get(0), Some(1));
    assert_eq!(vec.get(1), None);

    assert_eq!(vec.pop(), Some(1));
    assert!(vec.is_empty());
    assert_eq!(vec.len(), 0);
    assert_eq!(vec.get(0), None);

    assert_eq!(vec.pop(), None);
    assert!(vec.is_empty());
    assert_eq!(vec.len(), 0);
    assert_eq!(vec.get(0), None);

    vec.clear();
    assert!(vec.is_empty());
    assert_eq!(vec.len(), 0);
    assert_eq!(vec.get(0), None);

    vec.push(&1);
    vec.push(&2);
    let mut iter = vec.iter().into_iter();
    assert_eq!(Some(1), iter.next());
    assert_eq!(Some(2), iter.next());
    assert_eq!(None, iter.next());
    drop(iter);

    vec.clear();
    assert!(vec.is_empty());
    assert_eq!(vec.len(), 0);
    assert_eq!(vec.get(0), None);
    assert_eq!(None, vec.iter().into_iter().next());
}

#[test]
fn ext_should_reuse_existing_data_on_init() {
    let memory = Region::new();

    let memory = {
        let mut log = VecExt::init(memory);
        log.push(&u64::from(u16::from_le_bytes([1u8, 1])));
        log.into_memory()
    };

    {
        let log = VecExt::init(memory);
        assert!(!log.is_empty());
        assert_eq!(Some(u64::from(u16::from_le_bytes([1u8, 1]))), log.get(0));
    }
}

#[test]
fn ext_should_erase_existing_data_on_new() {
    let memory = Region::new();

    let memory = {
        let mut log = VecExt::new(memory);
        log.push(&u64::from(u16::from_le_bytes([1u8, 1])));
        log.into_memory()
    };

    {
        let log = VecExt::new(memory);
        assert!(log.is_empty());
        assert_eq!(None, log.get(0));
    }
}

#[test]
fn vec_set_replaces_one_slot() {
    let mut vec = VecExt::new(Region::new());
    vec.push(&10);
    vec.push(&20);
    vec.push(&30);
    vec.set(1, &21);
    assert_eq!(vec.iter(), vec![10, 21, 30]);
    assert_eq!(vec.len(), 3);
}

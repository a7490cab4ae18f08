use ic_mple_structures::log::ext::{append_result, write_error};
use ic_mple_structures::log::{LogExt, LogStructure, LogWriteError};
use ic_stable_structures::log::WriteError;
use ic_mple_structures::common::Region;

#[test]
fn log_appends_and_reads() {
    let mut log = LogExt::new(Region::new(), Region::new());
    assert!(log.is_empty());
    assert_eq!(log.len(), 0);
    assert_eq!(log.get(0), None);
    assert_eq!(log.append(vec![1u8, 2]), Ok(0));
    assert_eq!(log.append(vec![]), Ok(1));
    assert_eq!(log.append(vec![3u8]), Ok(2));
    assert!(!log.is_empty());
    assert_eq!(log.len(), 3);
    assert_eq!(log.get(0), Some(vec![1u8, 2]));
    assert_eq!(log.get(1), Some(vec![]));
    assert_eq!(log.get(2), Some(vec![3u8]));
    assert_eq!(log.get(3), None);
}

#[test]
fn log_clear_keeps_the_regions() {
    let mut log = LogExt::new(Region::new(), Region::new());
    assert_eq!(log.append(vec![7u8]), Ok(0));
    log.clear();
    assert!(log.is_empty());
    assert_eq!(log.get(0), None);
    assert_eq!(log.append(vec![8u8]), Ok(0));
    let (index_memory, data_memory) = log.into_memories();
    let reopened = LogExt::init(index_memory, data_memory);
    assert_eq!(reopened.len(), 1);
    assert_eq!(reopened.get(0), Some(vec![8u8]));
    let fresh = LogExt::init(Region::new(), Region::new());
    assert!(fresh.is_empty());
}

#[test]
fn grow_failure_keeps_its_numbers() {
    assert_eq!(
        write_error(WriteError::GrowFailed {
            current_size: 3,
            delta: 4
        }),
        LogWriteError::GrowFailed {
            current_size: 3,
            delta: 4
        }
    );
}

#[test]
fn append_result_keeps_index_and_maps_error() {
    assert_eq!(append_result(Ok(7)), Ok(7));
    assert_eq!(
        append_result(Err(WriteError::GrowFailed {
            current_size: 1,
            delta: 2
        })),
        Err(LogWriteError::GrowFailed {
            current_size: 1,
            delta: 2
        })
    );
}

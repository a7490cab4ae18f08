use ic_mple_structures::cell::VersionedStableCell;
use ic_mple_structures::ringbuffer::{StableIndicesCell, StableRingBuffer, StableRingBufferIndices};
use ic_mple_structures::vec::VecExt;
use ic_mple_structures::common::Region;

type Buffer = StableRingBuffer<u64, VecExt, StableIndicesCell>;

/// Check the roundtrip value -> bytes -> value for the index record
fn test_storable_roundtrip(value: &StableRingBufferIndices) {
    let bytes = value.to_bytes();
    let decoded = StableRingBufferIndices::from_bytes(&bytes);

    assert_eq!(&decoded, value);
}

#[test]
fn test_indices_offset_to_index() {
    let indices = StableRingBufferIndices::new(4);

    assert_eq!(0, indices.offset_to_index(0));
    assert_eq!(1, indices.offset_to_index(1));
    assert_eq!(2, indices.offset_to_index(2));
    assert_eq!(3, indices.offset_to_index(3));
    assert_eq!(0, indices.offset_to_index(4));
}

#[test]
fn test_indices_nth_element() {
    let capacity = 4;
    let mut indices = StableRingBufferIndices::new(capacity);

    for i in 0..10 {
        assert_eq!(None, indices.nth_element(i));
    }

    let len = 3;
    indices.increase_len(len);

    for i in 0..len {
        assert_eq!(Some(i), indices.nth_element(i));
    }
    for i in len..10 {
        assert_eq!(None, indices.nth_element(i));
    }

    let start = 2;
    indices.increase_start(2);

    for i in 0..len {
        assert_eq!(Some((start + i) % capacity), indices.nth_element(i));
    }
    for i in len..10 {
        assert_eq!(None, indices.nth_element(i));
    }
}

#[test]
fn indices_should_be_storable() {
    test_storable_roundtrip(&StableRingBufferIndices::new(4));
    test_storable_roundtrip(&StableRingBufferIndices::new(4000));
}

fn check_buffer(buffer: &Buffer, expected: &[u64]) {
    assert_eq!(buffer.len(), expected.len() as u64);

    for (i, expected) in expected.iter().enumerate() {
        assert_eq!(Some(expected), buffer.nth_element(i as u64).as_ref());
    }

    assert_eq!(None, buffer.nth_element(expected.len() as _));
}

fn with_buffer(capacity: u64, f: impl Fn(&mut Buffer)) {
    let mut buffer = StableRingBuffer::new(Region::new(), Region::new(), 2);
    buffer.clear();
    buffer.resize(capacity);

    f(&mut buffer);
}

#[test]
fn should_push() {
    with_buffer(3, |buffer| {
        check_buffer(buffer, &[]);
        assert!(buffer.is_empty());

        assert_eq!(buffer.push(&1), None);
        check_buffer(buffer, &[1]);

        assert_eq!(buffer.push(&2), None);
        check_buffer(buffer, &[1, 2]);

        assert_eq!(buffer.push(&3), None);
        check_buffer(buffer, &[1, 2, 3]);

        assert_eq!(buffer.push(&4), Some(1));
        check_buffer(buffer, &[2, 3, 4])
    });
}

#[test]
fn should_pop() {
    with_buffer(5, |buffer| {
        check_buffer(buffer, &[]);

        // Checks for not-wrapped buffer.
        for i in 0..3 {
            assert_eq!(buffer.push(&i), None);
        }
        check_buffer(buffer, &[0, 1, 2]);

        assert_eq!(buffer.pop(), Some(2));
        check_buffer(buffer, &[0, 1]);

        assert_eq!(buffer.pop(), Some(1));
        check_buffer(buffer, &[0]);

        assert_eq!(buffer.push(&1), None);
        check_buffer(buffer, &[0, 1]);

        assert_eq!(buffer.pop(), Some(1));
        check_buffer(buffer, &[0]);

        assert_eq!(buffer.pop(), Some(0));
        check_buffer(buffer, &[]);

        assert_eq!(buffer.pop(), None);

        // Checks for wrapped buffer.
        for i in 0..5 {
            assert_eq!(buffer.push(&i), None);
        }
        assert_eq!(buffer.push(&5), Some(0));
        assert_eq!(buffer.push(&6), Some(1));

        let expected = vec![2, 3, 4, 5, 6];
        check_buffer(buffer, &expected);

        for i in 0..5 {
            check_buffer(buffer, &expected[..(5 - i)]);
            assert_eq!(buffer.pop(), Some(expected[4 - i]));
        }
        assert_eq!(buffer.pop(), None);
    });
}

#[test]
fn should_truncate() {
    with_buffer(5, |buffer| {
        check_buffer(buffer, &[]);

        // Checks for not-wrapped buffer.
        for i in 0..5 {
            assert_eq!(buffer.push(&i), None);
        }
        check_buffer(buffer, &[0, 1, 2, 3, 4]);
        buffer.truncate(3);
        check_buffer(buffer, &[0, 1]);

        for i in 2..7 {
            buffer.push(&i);
        }
        check_buffer(buffer, &[2, 3, 4, 5, 6]);
        buffer.truncate(3);
        check_buffer(buffer, &[2, 3]);

        // Check replacement of truncated elements returns None.
        for i in 4..7 {
            assert_eq!(buffer.push(&i), None);
        }
        check_buffer(buffer, &[2, 3, 4, 5, 6]);
        assert_eq!(buffer.push(&7), Some(2));
        check_buffer(buffer, &[3, 4, 5, 6, 7]);
    });
}

#[test]
fn should_resize_decrease() {
    with_buffer(3, |buffer| {
        let two: u64 = 2;
        let three: u64 = 3;

        // resize empty buffer
        buffer.resize(two);
        check_buffer(buffer, &[]);
        assert_eq!(two, buffer.capacity());

        // resize smaller buffer
        buffer.resize(three);
        buffer.push(&1);
        buffer.resize(two);
        check_buffer(buffer, &[1]);
        assert_eq!(two, buffer.capacity());

        // resize same size buffer
        buffer.clear();
        buffer.resize(three);
        buffer.push(&1);
        buffer.push(&2);
        buffer.resize(two);
        check_buffer(buffer, &[1, 2]);
        assert_eq!(two, buffer.capacity());

        // resize bigger buffer
        buffer.clear();
        buffer.resize(three);
        buffer.push(&1);
        buffer.push(&2);
        buffer.push(&3);
        buffer.resize(two);
        check_buffer(buffer, &[2, 3]);
        assert_eq!(two, buffer.capacity());

        // resize bigger buffer, rolled
        buffer.clear();
        buffer.resize(three);
        buffer.push(&1);
        buffer.push(&2);
        buffer.push(&3);
        buffer.push(&4);
        buffer.resize(two);
        check_buffer(buffer, &[3, 4]);
        assert_eq!(two, buffer.capacity());
    });
}

#[test]
fn test_resize_increase() {
    with_buffer(3, |buffer| {
        let three: u64 = 3;
        let four: u64 = 4;

        // resize empty buffer
        buffer.resize(four);
        check_buffer(buffer, &[]);
        assert_eq!(four, buffer.capacity());

        // resize non-full buffer
        buffer.resize(three);
        buffer.push(&1);
        buffer.push(&2);
        buffer.resize(four);
        check_buffer(buffer, &[1, 2]);
        assert_eq!(four, buffer.capacity());

        // resize full buffer
        buffer.clear();
        buffer.resize(three);
        buffer.push(&1);
        buffer.push(&2);
        buffer.push(&3);
        buffer.resize(four);
        check_buffer(buffer, &[1, 2, 3]);
        assert_eq!(four, buffer.capacity());

        // resize full buffer rolled
        buffer.clear();
        buffer.resize(three);
        buffer.push(&1);
        buffer.push(&2);
        buffer.push(&3);
        buffer.push(&4);
        buffer.resize(four);
        buffer.push(&5);
        check_buffer(buffer, &[2, 3, 4, 5]);
        assert_eq!(four, buffer.capacity());
    });
}

#[test]
fn mod_should_clear() {
    with_buffer(2, |buffer| {
        check_buffer(buffer, &[]);

        buffer.clear();
        check_buffer(buffer, &[]);
        assert_eq!(2, buffer.capacity());

        buffer.push(&1);
        buffer.push(&2);
        buffer.push(&3);
        check_buffer(buffer, &[2, 3]);
        assert_eq!(2, buffer.capacity());

        buffer.clear();
        check_buffer(buffer, &[]);
        assert_eq!(2, buffer.capacity());

        buffer.push(&1);
        check_buffer(buffer, &[1]);
        assert_eq!(2, buffer.capacity());

        buffer.clear();
        check_buffer(buffer, &[]);
        assert_eq!(2, buffer.capacity());
    })
}

#[test]
fn fifo_keeps_the_last_capacity_elements() {
    for capacity in 1..5u64 {
        for k in 1..4u64 {
            let mut buffer = StableRingBuffer::new(
                Region::new(),
                Region::new(),
                capacity,
            );
            let mut evicted = vec![];
            for value in 0..capacity + k {
                evicted.push(buffer.push(&(100 + value)));
            }
            let kept: Vec<u64> = (k..capacity + k).map(|v| 100 + v).collect();
            check_buffer(&buffer, &kept);
            for i in 0..(capacity + k) as usize {
                if (i as u64) < capacity {
                    assert_eq!(evicted[i], None);
                } else {
                    assert_eq!(evicted[i], Some(100 + i as u64 - capacity));
                }
            }
        }
    }
}

#[test]
fn resize_shrinks_to_the_most_recent() {
    with_buffer(3, |buffer| {
        for value in 1..5 {
            buffer.push(&value);
        }
        check_buffer(buffer, &[2, 3, 4]);
        buffer.resize(2);
        check_buffer(buffer, &[3, 4]);
        assert_eq!(buffer.capacity(), 2);
        buffer.resize(2);
        check_buffer(buffer, &[3, 4]);
        buffer.resize(1);
        check_buffer(buffer, &[4]);
        buffer.resize(7);
        check_buffer(buffer, &[4]);
        assert_eq!(buffer.capacity(), 7);
    });
}

#[test]
fn truncate_saturates_and_frees_slots() {
    with_buffer(3, |buffer| {
        for value in 1..4 {
            buffer.push(&value);
        }
        buffer.truncate(1);
        assert_eq!(buffer.len(), 2);
        // The slot of the removed element is free again.
        assert_eq!(buffer.push(&9), None);
        check_buffer(buffer, &[1, 2, 9]);
        buffer.truncate(0);
        assert_eq!(buffer.len(), 3);
        buffer.truncate(u64::MAX);
        assert_eq!(buffer.len(), 0);
        assert!(buffer.is_empty());
        assert_eq!(buffer.push(&5), None);
        check_buffer(buffer, &[5]);
    });
}

#[test]
fn first_last_and_nth_from_end() {
    with_buffer(3, |buffer| {
        assert_eq!(buffer.first(), None);
        assert_eq!(buffer.last(), None);
        assert_eq!(buffer.nth_element_from_end(0), None);
        for value in 1..6 {
            buffer.push(&value);
        }
        check_buffer(buffer, &[3, 4, 5]);
        assert_eq!(buffer.first(), Some(3));
        assert_eq!(buffer.last(), Some(5));
        assert_eq!(buffer.nth_element_from_end(0), Some(5));
        assert_eq!(buffer.nth_element_from_end(1), Some(4));
        assert_eq!(buffer.nth_element_from_end(2), Some(3));
        assert_eq!(buffer.nth_element_from_end(3), None);
        assert_eq!(buffer.nth_element_from_end(u64::MAX), None);
    });
}

#[test]
fn indices_have_a_fixed_layout() {
    let mut indices = StableRingBufferIndices::new(0x0102);
    indices.increase_len(3);
    indices.increase_start(0x0101);
    let bytes = indices.to_bytes();
    assert_eq!(
        bytes,
        vec![1u8, 1, 0, 0, 0, 0, 0, 0, 3, 0, 0, 0, 0, 0, 0, 0, 2, 1, 0, 0, 0, 0, 0, 0]
    );
    assert_eq!(StableRingBufferIndices::try_from_bytes(&bytes), Some(indices));
    assert_eq!(StableRingBufferIndices::try_from_bytes(&bytes[..23]), None);
    assert_eq!(StableRingBufferIndices::try_from_bytes(&[0u8; 25]), None);
    assert_eq!(StableRingBufferIndices::try_from_bytes(&[]), None);
}

#[test]
fn indices_lengths_saturate() {
    let mut indices = StableRingBufferIndices::new(4);
    indices.increase_len(u64::MAX);
    assert_eq!(indices.len(), 4);
    indices.increase_len(1);
    assert_eq!(indices.len(), 4);
    indices.decrease_len(3);
    assert_eq!(indices.len(), 1);
    assert!(!indices.is_empty());
    indices.decrease_len(2);
    assert_eq!(indices.len(), 0);
    assert!(indices.is_empty());
    assert_eq!(indices.capacity(), 4);
    indices.increase_start(u64::MAX);
    assert_eq!(indices.start(), 3);
    assert_eq!(indices.offset_to_index(u64::MAX), 2);
    indices.increase_len(2);
    assert_eq!(indices.nth_element_from_end(0), Some(0));
    assert_eq!(indices.nth_element_from_end(1), Some(3));
    assert_eq!(indices.nth_element_from_end(2), None);
    assert_eq!(indices.nth_element_from_end(u64::MAX), None);
    assert!(indices.is_valid());
}

#[test]
fn buffer_is_reopened_from_its_regions() {
    let (data_memory, indices_memory) = {
        let mut buffer = StableRingBuffer::new(Region::new(), Region::new(), 3);
        for value in 1..5 {
            buffer.push(&value);
        }
        let (data, indices) = buffer.into_parts();
        (data.into_memory(), indices.into_inner().into_memory())
    };
    let data = VecExt::init(data_memory);
    let indices: StableIndicesCell =
        match VersionedStableCell::init(indices_memory, StableRingBufferIndices::new(1)) {
            Ok(cell) => cell,
            Err(_) => panic!("the index record was refused"),
        };
    let mut buffer: Buffer = match StableRingBuffer::try_new_with(data, indices) {
        Ok(buffer) => buffer,
        Err(_) => panic!("the regions of a buffer were refused"),
    };
    check_buffer(&buffer, &[2, 3, 4]);
    assert_eq!(buffer.capacity(), 3);
    assert_eq!(buffer.push(&5), Some(2));

    // An index record that speaks of more slots than there are is refused.
    let (data, _) = buffer.into_parts();
    let short = VecExt::new(data.into_memory());
    let mut record = StableRingBufferIndices::new(3);
    record.increase_len(2);
    let indices: StableIndicesCell = VersionedStableCell::new(Region::new(), record);
    assert!(
        StableRingBuffer::<u64, VecExt, StableIndicesCell>::try_new_with(short, indices).is_err()
    );
}

#[test]
fn growing_keeps_every_element_in_place() {
    for capacity in [4u64, 1000, u64::MAX] {
        with_buffer(3, |buffer| {
            for value in 1..6 {
                buffer.push(&value);
            }
            check_buffer(buffer, &[3, 4, 5]);
            buffer.resize(capacity);
            assert_eq!(buffer.capacity(), capacity);
            check_buffer(buffer, &[3, 4, 5]);
            assert!(buffer.can_push());
            assert_eq!(buffer.push(&6), None);
            check_buffer(buffer, &[3, 4, 5, 6]);
        });
    }
}

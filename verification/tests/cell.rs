use ic_mple_structures::cell::{CellStructure, StableCell, VersionedStableCell};
use ic_mple_structures::common::user::{
    user_decodable, user_from_bytes, user_to_bytes, UserV1, UserV2, VersionedUser,
};
use ic_mple_structures::common::{Codec, RefCodec};
use ic_mple_structures::common::Region;

type StoredUserCell = VersionedStableCell<VersionedUser, Vec<u8>, StableCell>;
type UserCell = VersionedStableCell<UserV2, VersionedUser, StoredUserCell>;

fn stored_cell_init(memory: Region, default_value: VersionedUser) -> StoredUserCell {
    match VersionedStableCell::init(memory, default_value) {
        Ok(cell) => cell,
        Err(_) => panic!("the stored user was refused"),
    }
}

fn user_cell_init(memory: Region, default_value: UserV2) -> UserCell {
    VersionedStableCell::with_cell(stored_cell_init(memory, VersionedUser::V2(default_value)))
}

fn user_cell_new(memory: Region, default_value: UserV2) -> UserCell {
    VersionedStableCell::with_cell(VersionedStableCell::new(
        memory,
        VersionedUser::V2(default_value),
    ))
}

fn user_cell_region(cell: UserCell) -> Region {
    cell.into_inner().into_inner().into_memory()
}

#[test]
fn cell_should_use_user_codec() {
    // Arrange
    let memory = Region::new();

    // create cell with v1 data in it
    let memory = {
        let mut v1_cell =
            stored_cell_init(memory, VersionedUser::V1(UserV1("test".to_string())));
        v1_cell.set(VersionedUser::V1(UserV1("test2".to_string())));
        v1_cell.into_inner().into_memory()
    };

    // create cell with v2 data that uses the codec
    let mut v2_cell = user_cell_init(
        memory,
        UserV2 {
            name: "test".to_string(),
            age: None,
        },
    );

    // Assert
    assert_eq!(
        v2_cell.get().as_ref(),
        &UserV2 {
            name: "test2".to_string(),
            age: None
        }
    );

    // Act
    v2_cell.set(UserV2 {
        name: "test3".to_string(),
        age: Some(42),
    });

    // Assert
    assert_eq!(
        v2_cell.get().as_ref(),
        &UserV2 {
            name: "test3".to_string(),
            age: Some(42)
        }
    );
}

#[test]
fn versioned_should_reuse_existing_data_on_init_cell() {
    let memory = Region::new();

    let memory = {
        let mut v2_cell = user_cell_init(
            memory,
            UserV2 {
                name: "test".to_string(),
                age: None,
            },
        );
        v2_cell.set(UserV2 {
            name: "test3".to_string(),
            age: Some(42),
        });
        user_cell_region(v2_cell)
    };

    {
        let v2_cell = user_cell_init(
            memory,
            UserV2 {
                name: "test".to_string(),
                age: None,
            },
        );
        assert_eq!(
            v2_cell.get().as_ref(),
            &UserV2 {
                name: "test3".to_string(),
                age: Some(42)
            }
        );
    }
}

#[test]
fn versioned_should_erase_existing_data_on_new_cell() {
    let memory = Region::new();

    let memory = {
        let mut v2_cell = user_cell_new(
            memory,
            UserV2 {
                name: "test".to_string(),
                age: None,
            },
        );
        v2_cell.set(UserV2 {
            name: "test3".to_string(),
            age: Some(42),
        });
        user_cell_region(v2_cell)
    };

    {
        let v2_cell = user_cell_new(
            memory,
            UserV2 {
                name: "test".to_string(),
                age: None,
            },
        );
        assert_eq!(
            v2_cell.get().as_ref(),
            &UserV2 {
                name: "test".to_string(),
                age: None
            }
        );
    }
}

#[test]
fn stable_cell_keeps_bytes() {
    let memory = {
        let mut cell = StableCell::new(Region::new(), vec![1u8, 2]);
        assert_eq!(cell.get().as_ref(), &vec![1u8, 2]);
        cell.set(vec![3u8]);
        assert_eq!(cell.get().as_ref(), &vec![3u8]);
        cell.into_memory()
    };
    let cell = StableCell::init(memory, vec![9u8, 9]);
    assert_eq!(cell.get().as_ref(), &vec![3u8]);
    let fresh = StableCell::init(Region::new(), vec![9u8, 9]);
    assert_eq!(fresh.get().as_ref(), &vec![9u8, 9]);
}

#[test]
fn versioned_cell_init_refuses_what_cannot_be_decoded() {
    let memory = StableCell::new(Region::new(), vec![7u8, 7, 7]).into_memory();
    let cell: Result<VersionedStableCell<u64, Vec<u8>, StableCell>, StableCell> =
        VersionedStableCell::init(memory, 5);
    let memory = match cell {
        Ok(_) => panic!("three bytes were taken for an integer"),
        Err(bytes) => {
            assert_eq!(bytes.get().as_ref(), &vec![7u8, 7, 7]);
            bytes.into_memory()
        }
    };
    let reopened: Result<VersionedStableCell<Vec<u8>, Vec<u8>, StableCell>, StableCell> =
        VersionedStableCell::init(memory, vec![]);
    let memory = match reopened {
        Ok(cell) => {
            assert_eq!(cell.get().as_ref(), &vec![7u8, 7, 7]);
            cell.into_inner().into_memory()
        }
        Err(_) => panic!("bytes were refused as bytes"),
    };
    let fresh: Result<VersionedStableCell<u64, Vec<u8>, StableCell>, StableCell> =
        VersionedStableCell::init(Region::new(), 5);
    match fresh {
        Ok(cell) => assert_eq!(*cell.get(), 5),
        Err(_) => panic!("the default value was refused"),
    }
    let refused: Result<VersionedStableCell<u64, Vec<u8>, StableCell>, StableCell> =
        VersionedStableCell::try_with_cell(StableCell::init(memory, vec![]));
    match refused {
        Ok(_) => panic!("three bytes were taken for an integer"),
        Err(cell) => assert_eq!(cell.get().as_ref(), &vec![7u8, 7, 7]),
    }
}

#[test]
fn versioned_cell_of_numbers() {
    let mut cell: VersionedStableCell<u64, Vec<u8>, StableCell> =
        VersionedStableCell::new(Region::new(), 258);
    assert_eq!(*cell.get(), 258);
    cell.set(u64::MAX);
    assert_eq!(*cell.get(), u64::MAX);
    let inner = cell.into_inner();
    assert_eq!(inner.get().as_ref(), &vec![255u8; 8]);
}

#[test]
fn user_codec_round_trip() {
    let users = vec![
        UserV2 {
            name: "".to_string(),
            age: None,
        },
        UserV2 {
            name: "brian".to_string(),
            age: Some(42),
        },
        UserV2 {
            name: "zoë ✓".to_string(),
            age: Some(0),
        },
        UserV2 {
            name: "max".to_string(),
            age: Some(255),
        },
    ];
    for user in users {
        let stored: VersionedUser = <VersionedUser as Codec<UserV2>>::encode(user.clone());
        assert_eq!(stored, VersionedUser::V2(user.clone()));
        assert_eq!(<VersionedUser as Codec<UserV2>>::decode(stored.clone()), user);
        assert_eq!(
            <VersionedUser as RefCodec<UserV2>>::decode_ref(&stored).as_ref(),
            &user
        );
        let bytes = user_to_bytes(&stored);
        assert!(user_decodable(&bytes));
        assert_eq!(user_from_bytes(&bytes), stored);
    }
}

#[test]
fn user_of_first_version_decodes_without_age() {
    let stored = VersionedUser::V1(UserV1("roger".to_string()));
    let bytes = user_to_bytes(&stored);
    assert_eq!(bytes, vec![1u8, b'r', b'o', b'g', b'e', b'r']);
    assert_eq!(user_from_bytes(&bytes), stored);
    assert_eq!(
        <VersionedUser as Codec<UserV2>>::decode(stored),
        UserV2 {
            name: "roger".to_string(),
            age: None
        }
    );
    let second = VersionedUser::V2(UserV2 {
        name: "al".to_string(),
        age: Some(7),
    });
    assert_eq!(user_to_bytes(&second), vec![2u8, 1, 7, b'a', b'l']);
    let ageless = VersionedUser::V2(UserV2 {
        name: "al".to_string(),
        age: None,
    });
    assert_eq!(user_to_bytes(&ageless), vec![2u8, 0, 0, b'a', b'l']);
}

#[test]
fn user_bytes_that_cannot_be_decoded() {
    assert!(!user_decodable(&vec![]));
    assert!(!user_decodable(&vec![0u8]));
    assert!(!user_decodable(&vec![3u8, b'a']));
    assert!(!user_decodable(&vec![2u8]));
    assert!(!user_decodable(&vec![2u8, 0]));
    assert!(!user_decodable(&vec![2u8, 2, 0, b'a']));
    assert!(!user_decodable(&vec![1u8, 0xff]));
    assert!(!user_decodable(&vec![2u8, 1, 3, 0xc3]));
    assert!(user_decodable(&vec![1u8]));
    assert!(user_decodable(&vec![2u8, 0, 0]));
    assert!(user_decodable(&vec![2u8, 0, 9, b'x']));
    assert_eq!(
        user_from_bytes(&vec![2u8, 0, 9, b'x']),
        VersionedUser::V2(UserV2 {
            name: "x".to_string(),
            age: None
        })
    );
}

#[test]
fn identity_codec_hands_the_value_through() {
    assert_eq!(<u64 as Codec<u64>>::encode(5), 5);
    assert_eq!(<u64 as Codec<u64>>::decode(5), 5);
    assert!(<u64 as Codec<u64>>::decodable(&5));
    let bytes = vec![1u8, 2];
    assert_eq!(<Vec<u8> as RefCodec<Vec<u8>>>::decode_ref(&bytes).as_ref(), &bytes);
    assert_eq!(<Vec<u8> as RefCodec<Vec<u8>>>::encode(bytes.clone()), bytes);
}

#[test]
fn stable_cell_init_keeps_what_the_region_holds() {
    // An empty region takes the default value.
    let memory = {
        let cell = StableCell::init(Region::new(), vec![4u8, 5, 6]);
        assert_eq!(cell.get().as_ref(), &vec![4u8, 5, 6]);
        cell.into_memory()
    };
    // A region with a cell keeps its value, whatever the default is.
    let memory = {
        let mut cell = StableCell::init(memory, vec![]);
        assert_eq!(cell.get().as_ref(), &vec![4u8, 5, 6]);
        cell.set(vec![]);
        cell.into_memory()
    };
    let cell = StableCell::init(memory, vec![1u8]);
    assert_eq!(cell.get().as_ref(), &Vec::<u8>::new());
}

#[test]
fn identity_codec_lends_and_user_codec_lends_the_second_version() {
    use_cow_borrowed(<u64 as RefCodec<u64>>::decode_ref(&5), true);
    let second = VersionedUser::V2(UserV2 {
        name: "al".to_string(),
        age: Some(7),
    });
    let first = VersionedUser::V1(UserV1("al".to_string()));
    use_cow_borrowed(<VersionedUser as RefCodec<UserV2>>::decode_ref(&second), true);
    use_cow_borrowed(<VersionedUser as RefCodec<UserV2>>::decode_ref(&first), false);
    use_cow_borrowed(
        <VersionedUser as RefCodec<VersionedUser>>::decode_ref(&first),
        true,
    );
}

fn use_cow_borrowed<T: Clone>(value: std::borrow::Cow<'_, T>, lent: bool) {
    assert_eq!(matches!(value, std::borrow::Cow::Borrowed(_)), lent);
}

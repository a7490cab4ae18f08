//! A small record in two stored versions: how a versioned record and its
//! codecs are written.
//!
//! The first version of a user had a name only. The second adds an age,
//! which users stored in the first version do not have.

use crate::common::codec::{Codec, RefCodec};
use crate::common::value::Value;
use std::borrow::Cow;
use vstd::prelude::*;
use vstd::slice::{slice_subrange, slice_to_vec};
use vstd::utf8::{decode_utf8, encode_utf8, valid_utf8};

verus! {

/// The first stored version of a user: the name.
#[derive(Clone, Debug, PartialEq, Eq)]
pub struct UserV1(pub String);

/// The second stored version of a user, and the canonical shape.
#[derive(Clone, Debug, PartialEq, Eq)]
pub struct UserV2 {
    pub name: String,
    pub age: Option<u8>,
}

/// A user as it is stored: in one of the two versions.
#[derive(Clone, Debug, PartialEq, Eq)]
pub enum VersionedUser {
    V1(UserV1),
    V2(UserV2),
}

/// What a user of the second version is: a name and, where known, an age.
pub struct UserV2View {
    pub name: Seq<char>,
    pub age: Option<u8>,
}

/// What a stored user is.
pub enum VersionedUserView {
    V1(Seq<char>),
    V2(UserV2View),
}

impl View for UserV1 {
    type V = Seq<char>;

    open spec fn view(&self) -> Seq<char> {
        self.0@
    }
}

impl View for UserV2 {
    type V = UserV2View;

    open spec fn view(&self) -> UserV2View {
        UserV2View { name: self.name@, age: self.age }
    }
}

impl View for VersionedUser {
    type V = VersionedUserView;

    open spec fn view(&self) -> VersionedUserView {
        match self {
            VersionedUser::V1(user) => VersionedUserView::V1(user@),
            VersionedUser::V2(user) => VersionedUserView::V2(user@),
        }
    }
}

impl Value for UserV1 {
    fn duplicate(&self) -> (copy: Self) {
        UserV1(self.0.clone())
    }
}

impl Value for UserV2 {
    fn duplicate(&self) -> (copy: Self) {
        UserV2 { name: self.name.clone(), age: self.age }
    }
}

impl Value for VersionedUser {
    fn duplicate(&self) -> (copy: Self) {
        match self {
            VersionedUser::V1(user) => VersionedUser::V1(user.duplicate()),
            VersionedUser::V2(user) => VersionedUser::V2(user.duplicate()),
        }
    }
}

/// The canonical user that a stored user stands for: a user of the first
/// version has no age.
pub open spec fn spec_upgrade(stored: VersionedUserView) -> UserV2View {
    match stored {
        VersionedUserView::V1(name) => UserV2View { name, age: None },
        VersionedUserView::V2(user) => user,
    }
}

/// A stored user decodes to the second version, and a user is stored in
/// the second version.
impl Codec<UserV2> for VersionedUser {
    open spec fn spec_decodable(source: VersionedUserView) -> bool {
        true
    }

    open spec fn spec_decode(source: VersionedUserView) -> UserV2View {
        spec_upgrade(source)
    }

    open spec fn spec_encode(dest: UserV2View) -> VersionedUserView {
        VersionedUserView::V2(dest)
    }

    proof fn lemma_round_trip(dest: UserV2View) {
    }

    fn decodable(source: &VersionedUser) -> (ok: bool) {
        true
    }

    fn decode(source: VersionedUser) -> (dest: UserV2) {
        match source {
            VersionedUser::V1(user_v1) => UserV2 { name: user_v1.0, age: None },
            VersionedUser::V2(user_v2) => user_v2,
        }
    }

    fn encode(dest: UserV2) -> (source: VersionedUser) {
        VersionedUser::V2(dest)
    }
}

/// What decoding by reference hands out for a stored user: a user stored
/// in the second version is lent as it is, and a user stored in the first
/// version is built anew.
pub open spec fn spec_user_lent(source: VersionedUser, dest: Cow<'_, UserV2>) -> bool {
    match source {
        VersionedUser::V1(_) => dest is Owned,
        VersionedUser::V2(user_v2) => dest == Cow::<UserV2>::Borrowed(&user_v2),
    }
}

/// A stored user decodes to the second version without a copy where it
/// is stored in that version.
impl RefCodec<UserV2> for VersionedUser {
    open spec fn spec_decodable(source: VersionedUserView) -> bool {
        true
    }

    open spec fn spec_decode(source: VersionedUserView) -> UserV2View {
        spec_upgrade(source)
    }

    open spec fn spec_encode(dest: UserV2View) -> VersionedUserView {
        VersionedUserView::V2(dest)
    }

    proof fn lemma_round_trip(dest: UserV2View) {
    }

    fn decodable(source: &VersionedUser) -> (ok: bool) {
        true
    }

    /// Lends a user stored in the second version, and builds one from a
    /// user stored in the first.
    fn decode_ref<'a>(source: &'a VersionedUser) -> (dest: Cow<'a, UserV2>)
        ensures
            spec_user_lent(*source, dest),
    {
        match source {
            VersionedUser::V1(user_v1) => Cow::Owned(
                UserV2 { name: user_v1.0.clone(), age: None },
            ),
            VersionedUser::V2(user_v2) => Cow::Borrowed(user_v2),
        }
    }

    fn encode(dest: UserV2) -> (source: VersionedUser) {
        VersionedUser::V2(dest)
    }
}

/// The first byte of a stored user of the first version.
pub const TAG_V1: u8 = 1;

/// The first byte of a stored user of the second version.
pub const TAG_V2: u8 = 2;

/// The bytes of a stored user: the tag of its version; for the second
/// version a byte that says whether the age is known and a byte with the
/// age; then the name in UTF-8.
pub open spec fn spec_user_to_bytes(user: VersionedUserView) -> Seq<u8> {
    match user {
        VersionedUserView::V1(name) => seq![TAG_V1] + encode_utf8(name),
        VersionedUserView::V2(user) => match user.age {
            Some(age) => seq![TAG_V2, 1u8, age] + encode_utf8(user.name),
            None => seq![TAG_V2, 0u8, 0u8] + encode_utf8(user.name),
        },
    }
}

/// Whether `bytes` are the bytes of a stored user.
pub open spec fn spec_user_decodable(bytes: Seq<u8>) -> bool {
    ||| bytes.len() >= 1 && bytes[0] == TAG_V1 && valid_utf8(bytes.subrange(1, bytes.len() as int))
    ||| bytes.len() >= 3 && bytes[0] == TAG_V2 && bytes[1] <= 1 && valid_utf8(
        bytes.subrange(3, bytes.len() as int),
    )
}

/// The stored user that `bytes` encode.
pub open spec fn spec_user_from_bytes(bytes: Seq<u8>) -> VersionedUserView {
    if bytes[0] == TAG_V1 {
        VersionedUserView::V1(decode_utf8(bytes.subrange(1, bytes.len() as int)))
    } else {
        VersionedUserView::V2(
            UserV2View {
                name: decode_utf8(bytes.subrange(3, bytes.len() as int)),
                age: if bytes[1] == 1 {
                    Some(bytes[2])
                } else {
                    None
                },
            },
        )
    }
}

/// The bytes of a stored user decode to that user.
pub proof fn lemma_user_bytes_round_trip(user: VersionedUserView)
    ensures
        spec_user_decodable(spec_user_to_bytes(user)),
        spec_user_from_bytes(spec_user_to_bytes(user)) == user,
{
    let bytes = spec_user_to_bytes(user);
    match user {
        VersionedUserView::V1(name) => {
            vstd::utf8::encode_utf8_valid_utf8(name);
            vstd::utf8::encode_utf8_decode_utf8(name);
            assert(bytes.subrange(1, bytes.len() as int) =~= encode_utf8(name));
        },
        VersionedUserView::V2(u) => {
            vstd::utf8::encode_utf8_valid_utf8(u.name);
            vstd::utf8::encode_utf8_decode_utf8(u.name);
            assert(bytes.subrange(3, bytes.len() as int) =~= encode_utf8(u.name));
        },
    }
}

/// `std::str::from_utf8`: says whether the bytes are valid UTF-8.
#[verifier::external_body]
fn bytes_are_utf8(bytes: &[u8]) -> (ok: bool)
    ensures
        ok == valid_utf8(bytes@),
{
    std::str::from_utf8(bytes).is_ok()
}

/// `String::from_utf8`: the string that valid UTF-8 bytes encode, and
/// nothing for other bytes.
#[verifier::external_body]
fn string_from_utf8(bytes: Vec<u8>) -> (text: Option<String>)
    ensures
        text is Some <==> valid_utf8(bytes@),
        text matches Some(s) ==> s@ == decode_utf8(bytes@),
{
    String::from_utf8(bytes).ok()
}

/// Returns whether `source` are the bytes of a stored user.
pub fn user_decodable(source: &Vec<u8>) -> (ok: bool)
    ensures
        ok == spec_user_decodable(source@),
{
    let len: usize = source.len();
    if len >= 1 && source[0] == TAG_V1 {
        bytes_are_utf8(slice_subrange(source.as_slice(), 1, len))
    } else if len >= 3 && source[0] == TAG_V2 && source[1] <= 1 {
        bytes_are_utf8(slice_subrange(source.as_slice(), 3, len))
    } else {
        false
    }
}

/// Decodes the bytes of a stored user.
pub fn user_from_bytes(source: &Vec<u8>) -> (user: VersionedUser)
    requires
        spec_user_decodable(source@),
    ensures
        user@ == spec_user_from_bytes(source@),
{
    let len: usize = source.len();
    if source[0] == TAG_V1 {
        let text = slice_to_vec(slice_subrange(source.as_slice(), 1, len));
        VersionedUser::V1(UserV1(string_from_utf8(text).unwrap()))
    } else {
        let text = slice_to_vec(slice_subrange(source.as_slice(), 3, len));
        let age: Option<u8> = if source[1] == 1 {
            Some(source[2])
        } else {
            None
        };
        VersionedUser::V2(UserV2 { name: string_from_utf8(text).unwrap(), age })
    }
}

/// Encodes a stored user as bytes.
pub fn user_to_bytes(user: &VersionedUser) -> (bytes: Vec<u8>)
    ensures
        bytes@ == spec_user_to_bytes(user@),
{
    let mut bytes: Vec<u8> = Vec::new();
    match user {
        VersionedUser::V1(user_v1) => {
            bytes.push(TAG_V1);
            let mut text = slice_to_vec(user_v1.0.as_str().as_bytes());
            bytes.append(&mut text);
        },
        VersionedUser::V2(user_v2) => {
            bytes.push(TAG_V2);
            match user_v2.age {
                Some(age) => {
                    bytes.push(1);
                    bytes.push(age);
                },
                None => {
                    bytes.push(0);
                    bytes.push(0);
                },
            }
            let mut text = slice_to_vec(user_v2.name.as_str().as_bytes());
            bytes.append(&mut text);
        },
    }
    assert(bytes@ =~= spec_user_to_bytes(user@));
    bytes
}

/// A stored user as the byte string that a region keeps.
impl Codec<VersionedUser> for Vec<u8> {
    open spec fn spec_decodable(source: Seq<u8>) -> bool {
        spec_user_decodable(source)
    }

    open spec fn spec_decode(source: Seq<u8>) -> VersionedUserView {
        spec_user_from_bytes(source)
    }

    open spec fn spec_encode(dest: VersionedUserView) -> Seq<u8> {
        spec_user_to_bytes(dest)
    }

    proof fn lemma_round_trip(dest: VersionedUserView) {
        lemma_user_bytes_round_trip(dest);
    }

    fn decodable(source: &Vec<u8>) -> (ok: bool) {
        user_decodable(source)
    }

    fn decode(source: Vec<u8>) -> (dest: VersionedUser) {
        user_from_bytes(&source)
    }

    fn encode(dest: VersionedUser) -> (source: Vec<u8>) {
        user_to_bytes(&dest)
    }
}

/// A stored user as the byte string that a region keeps.
impl RefCodec<VersionedUser> for Vec<u8> {
    open spec fn spec_decodable(source: Seq<u8>) -> bool {
        spec_user_decodable(source)
    }

    open spec fn spec_decode(source: Seq<u8>) -> VersionedUserView {
        spec_user_from_bytes(source)
    }

    open spec fn spec_encode(dest: VersionedUserView) -> Seq<u8> {
        spec_user_to_bytes(dest)
    }

    proof fn lemma_round_trip(dest: VersionedUserView) {
        lemma_user_bytes_round_trip(dest);
    }

    fn decodable(source: &Vec<u8>) -> (ok: bool) {
        user_decodable(source)
    }

    fn decode_ref<'a>(source: &'a Vec<u8>) -> (dest: Cow<'a, VersionedUser>) {
        Cow::Owned(user_from_bytes(source))
    }

    fn encode(dest: VersionedUser) -> (source: Vec<u8>) {
        user_to_bytes(&dest)
    }
}

} // verus!

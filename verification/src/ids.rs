//! Identifiers: UUID-valued newtypes for accounts, files, collections,
//! sessions and tokens, and their hyphenated text form.
use vstd::prelude::*;
use vstd::arithmetic::power::pow;

verus! {

/// Lowercase hexadecimal digit for `n < 16`.
pub open spec fn hex_digit(n: int) -> char {
    if n < 10 {
        ((n + 48) as u32) as char
    } else {
        ((n + 87) as u32) as char
    }
}

/// The `i`-th hexadecimal digit (most significant first) of the 128-bit value `u`.
pub open spec fn uuid_nibble(u: u128, i: int) -> int {
    (u as int / pow(16, (31 - i) as nat)) % 16
}

/// Hyphenated lowercase text of a UUID: 32 hex digits grouped 8-4-4-4-12.
pub open spec fn uuid_text(u: u128) -> Seq<char> {
    Seq::new(
        36,
        |j: int|
            if j == 8 || j == 13 || j == 18 || j == 23 {
                '-'
            } else {
                let skipped = if j < 8 { 0int } else if j < 13 { 1int } else if j < 18 { 2int } else if j < 23 { 3int } else { 4int };
                hex_digit(uuid_nibble(u, j - skipped))
            },
    )
}

/// The text form of a UUID (`uuid::Uuid` as `Display`), which the `uuid`
/// crate documents as hyphenated lowercase hexadecimal.
#[verifier::external_body]
pub fn uuid_to_text(u: u128) -> (s: String)
    ensures
        s@ == uuid_text(u),
{
    uuid::Uuid::from_u128(u).to_string()
}

/// The version field of a UUID (the high nibble of its seventh byte).
pub open spec fn uuid_version(u: u128) -> u128 {
    (u >> 76u128) & 0xFu128
}

/// The two variant bits of a UUID (the top bits of its ninth byte); `0b10`
/// marks the RFC 9562 layout.
pub open spec fn uuid_variant(u: u128) -> u128 {
    (u >> 62u128) & 0x3u128
}

/// A fresh time-ordered UUID from `uuid::Uuid::now_v7`. Its timestamp and
/// random bits depend on the clock and on chance, so only its layout is
/// stated: the `uuid` source writes version 7 and the RFC 9562 variant.
#[verifier::external_body]
pub fn uuid_now_v7() -> (u: u128)
    ensures
        uuid_version(u) == 7,
        uuid_variant(u) == 2,
{
    uuid::Uuid::now_v7().as_u128()
}

/// A fresh random UUID from `uuid::Uuid::new_v4`. Its bits are random, so
/// only its layout is stated: the `uuid` source sets version 4 and the RFC 9562
/// variant.
#[verifier::external_body]
pub fn uuid_new_v4() -> (u: u128)
    ensures
        uuid_version(u) == 4,
        uuid_variant(u) == 2,
{
    uuid::Uuid::new_v4().as_u128()
}

/// Identifier of an account.
#[derive(Clone, Copy, PartialEq, Eq, Structural, Debug, Hash, PartialOrd, Ord)]
pub struct AccountId(u128);

impl View for AccountId {
    type V = u128;

    closed spec fn view(&self) -> u128 {
        self.0
    }
}

impl AccountId {
    /// A fresh identifier (time-ordered, version 7).
    pub fn new() -> (id: AccountId)
        ensures
            uuid_version(id@) == 7,
            uuid_variant(id@) == 2,
    {
        AccountId(uuid_now_v7())
    }

    /// The identifier with the given 128-bit value.
    pub fn from_u128(v: u128) -> (id: AccountId)
        ensures
            id@ == v,
    {
        AccountId(v)
    }

    /// The identifier's 128-bit value.
    pub fn as_u128(&self) -> (v: u128)
        ensures
            v == self@,
    {
        self.0
    }

    /// Hyphenated lowercase text of the identifier.
    pub fn to_uuid_string(&self) -> (s: String)
        ensures
            s@ == uuid_text(self@),
    {
        uuid_to_text(self.0)
    }
}

/// Identifier of a file.
#[derive(Clone, Copy, PartialEq, Eq, Structural, Debug, Hash, PartialOrd, Ord)]
pub struct FileId(u128);

impl View for FileId {
    type V = u128;

    closed spec fn view(&self) -> u128 {
        self.0
    }
}

impl FileId {
    /// A fresh identifier (time-ordered, version 7).
    pub fn new() -> (id: FileId)
        ensures
            uuid_version(id@) == 7,
            uuid_variant(id@) == 2,
    {
        FileId(uuid_now_v7())
    }

    /// The identifier with the given 128-bit value.
    pub fn from_u128(v: u128) -> (id: FileId)
        ensures
            id@ == v,
    {
        FileId(v)
    }

    /// The identifier's 128-bit value.
    pub fn as_u128(&self) -> (v: u128)
        ensures
            v == self@,
    {
        self.0
    }

    /// Hyphenated lowercase text of the identifier.
    pub fn to_uuid_string(&self) -> (s: String)
        ensures
            s@ == uuid_text(self@),
    {
        uuid_to_text(self.0)
    }
}

/// Identifier of a collection.
#[derive(Clone, Copy, PartialEq, Eq, Structural, Debug, Hash, PartialOrd, Ord)]
pub struct CollectionId(u128);

impl View for CollectionId {
    type V = u128;

    closed spec fn view(&self) -> u128 {
        self.0
    }
}

impl CollectionId {
    /// A fresh identifier (time-ordered, version 7).
    pub fn new() -> (id: CollectionId)
        ensures
            uuid_version(id@) == 7,
            uuid_variant(id@) == 2,
    {
        CollectionId(uuid_now_v7())
    }

    /// The identifier with the given 128-bit value.
    pub fn from_u128(v: u128) -> (id: CollectionId)
        ensures
            id@ == v,
    {
        CollectionId(v)
    }

    /// The identifier's 128-bit value.
    pub fn as_u128(&self) -> (v: u128)
        ensures
            v == self@,
    {
        self.0
    }

    /// Hyphenated lowercase text of the identifier.
    pub fn to_uuid_string(&self) -> (s: String)
        ensures
            s@ == uuid_text(self@),
    {
        uuid_to_text(self.0)
    }
}

/// Identifier of a session.
#[derive(Clone, Copy, PartialEq, Eq, Structural, Debug, Hash, PartialOrd, Ord)]
pub struct SessionId(u128);

impl View for SessionId {
    type V = u128;

    closed spec fn view(&self) -> u128 {
        self.0
    }
}

impl SessionId {
    /// A fresh identifier (random, version 4).
    pub fn new() -> (id: SessionId)
        ensures
            uuid_version(id@) == 4,
            uuid_variant(id@) == 2,
    {
        SessionId(uuid_new_v4())
    }

    /// The identifier with the given 128-bit value.
    pub fn from_u128(v: u128) -> (id: SessionId)
        ensures
            id@ == v,
    {
        SessionId(v)
    }

    /// The identifier's 128-bit value.
    pub fn as_u128(&self) -> (v: u128)
        ensures
            v == self@,
    {
        self.0
    }

    /// Hyphenated lowercase text of the identifier.
    pub fn to_uuid_string(&self) -> (s: String)
        ensures
            s@ == uuid_text(self@),
    {
        uuid_to_text(self.0)
    }
}

/// Identifier of a personal access token.
#[derive(Clone, Copy, PartialEq, Eq, Structural, Debug, Hash, PartialOrd, Ord)]
pub struct TokenId(u128);

impl View for TokenId {
    type V = u128;

    closed spec fn view(&self) -> u128 {
        self.0
    }
}

impl TokenId {
    /// A fresh identifier (time-ordered, version 7).
    pub fn new() -> (id: TokenId)
        ensures
            uuid_version(id@) == 7,
            uuid_variant(id@) == 2,
    {
        TokenId(uuid_now_v7())
    }

    /// The identifier with the given 128-bit value.
    pub fn from_u128(v: u128) -> (id: TokenId)
        ensures
            id@ == v,
    {
        TokenId(v)
    }

    /// The identifier's 128-bit value.
    pub fn as_u128(&self) -> (v: u128)
        ensures
            v == self@,
    {
        self.0
    }

    /// Hyphenated lowercase text of the identifier.
    pub fn to_uuid_string(&self) -> (s: String)
        ensures
            s@ == uuid_text(self@),
    {
        uuid_to_text(self.0)
    }
}

} // verus!

//! Personal access tokens: a random 128-bit secret shown once as
//! `oxipat.<base64url>`, of which only the BLAKE3 hash is kept.
use vstd::prelude::*;
use base64::Engine;
use rand::Rng;
use crate::ids::{AccountId, TokenId};
use crate::text::{chars_of, concat, string_of, vec_eq};

verus! {

/// The text that starts every token.
pub open spec fn token_prefix() -> Seq<char> {
    seq!['o', 'x', 'i', 'p', 'a', 't', '.']
}

/// URL-safe, unpadded base64 of `bytes` (`BASE64_URL_SAFE_NO_PAD.encode`).
pub uninterp spec fn spec_b64url_encode(bytes: Seq<u8>) -> Seq<char>;

/// URL-safe, unpadded base64 decoding of `text` (`BASE64_URL_SAFE_NO_PAD.decode`);
/// `None` when `text` is not valid.
pub uninterp spec fn spec_b64url_decode(text: Seq<char>) -> Option<Seq<u8>>;

/// BLAKE3 hash of `bytes` (`blake3::hash`).
pub uninterp spec fn spec_blake3(bytes: Seq<u8>) -> Seq<u8>;

/// `BASE64_URL_SAFE_NO_PAD.encode(bytes)`. The encoding is named; what is
/// stated is the round trip that `base64` documents (decoding the text gives
/// the bytes back) and the length that its `encoded_len` gives for 16 bytes
/// without padding: five 4-character chunks and 2 characters for the last byte.
#[verifier::external_body]
fn b64url_encode(bytes: &[u8; 16]) -> (s: String)
    ensures
        s@ == spec_b64url_encode(bytes@),
        s@.len() == 22,
        spec_b64url_decode(s@) == Some(bytes@),
{
    base64::prelude::BASE64_URL_SAFE_NO_PAD.encode(bytes)
}

/// `BASE64_URL_SAFE_NO_PAD.decode(text)`, `None` on a decoding error.
#[verifier::external_body]
fn b64url_decode(text: &str) -> (r: Option<Vec<u8>>)
    ensures
        match r {
            Some(v) => spec_b64url_decode(text@) == Some(v@),
            None => spec_b64url_decode(text@) is None,
        },
{
    base64::prelude::BASE64_URL_SAFE_NO_PAD.decode(text).ok()
}

/// `blake3::hash(bytes)`, as its 32 bytes.
#[verifier::external_body]
pub(crate) fn blake3_hash(bytes: &[u8]) -> (h: [u8; 32])
    ensures
        h@ == spec_blake3(bytes@),
{
    *blake3::hash(bytes).as_bytes()
}

/// 128 random bits from `rand::thread_rng().gen::<i128>()`, as little-endian
/// bytes. They are random, so nothing is stated of them.
#[verifier::external_body]
fn random_token_bytes() -> [u8; 16] {
    rand::thread_rng().gen::<i128>().to_le_bytes()
}

/// The secret of a personal access token: 128 bits, kept as their 16
/// little-endian bytes.
#[derive(Clone, Copy, Debug, PartialEq, Eq, Hash)]
pub struct Token {
    bytes: [u8; 16],
}

impl View for Token {
    type V = Seq<u8>;

    closed spec fn view(&self) -> Seq<u8> {
        self.bytes@
    }
}

/// Why a text is not a token.
#[derive(Debug)]
pub enum TokenParseError {
    /// It does not start with `oxipat.`.
    NotAToken,
    /// What follows the prefix is not the base64 text of 16 bytes.
    DecodeError,
}

/// The expiration date of a token must lie in the future.
#[derive(Debug)]
pub struct InvalidExpirationDate;

/// The text of a token: the prefix, then the base64 of its bytes.
pub open spec fn token_text(bytes: Seq<u8>) -> Seq<char> {
    token_prefix() + spec_b64url_encode(bytes)
}

/// What `Token::parse` accepts of `s`: the prefix, then the base64 text of exactly 16 bytes.
pub open spec fn parsed_token(s: Seq<char>) -> Option<Seq<u8>> {
    if s.len() >= token_prefix().len() && s.take(token_prefix().len() as int) == token_prefix() {
        match spec_b64url_decode(s.skip(token_prefix().len() as int)) {
            Some(b) => if b.len() == 16 {
                Some(b)
            } else {
                None
            },
            None => None,
        }
    } else {
        None
    }
}

impl Token {
    /// A fresh random token.
    pub fn new() -> (t: Token)
        ensures
            t@.len() == 16,
    {
        Token { bytes: random_token_bytes() }
    }

    /// The token with these bytes.
    pub fn from_bytes(bytes: [u8; 16]) -> (t: Token)
        ensures
            t@ == bytes@,
    {
        Token { bytes }
    }

    /// The token's bytes.
    pub fn to_bytes(&self) -> (b: [u8; 16])
        ensures
            b@ == self@,
    {
        self.bytes
    }

    /// The BLAKE3 hash of the token's bytes, which is what is stored.
    pub fn hashed(&self) -> (h: [u8; 32])
        ensures
            h@ == spec_blake3(self@),
    {
        blake3_hash(self.bytes.as_slice())
    }

    /// The token's text, `oxipat.` and the unpadded URL-safe base64 of its bytes.
    pub fn to_display_string(&self) -> (s: String)
        ensures
            s@ == token_text(self@),
            s@.len() == 29,
            parsed_token(s@) == Some(self@),
    {
        let enc = b64url_encode(&self.bytes);
        let prefix: Vec<char> = vec!['o', 'x', 'i', 'p', 'a', 't', '.'];
        assert(prefix@ =~= token_prefix());
        let p = string_of(&prefix, 0, prefix.len());
        assert(prefix@.subrange(0, 7) =~= prefix@);
        let s = concat(p.as_str(), enc.as_str());
        assert(s@.take(token_prefix().len() as int) =~= token_prefix());
        assert(s@.skip(token_prefix().len() as int) =~= enc@);
        assert(self.bytes@.len() == 16);
        s
    }

    /// Reads a token's text: `oxipat.` followed by the base64 text of 16 bytes.
    pub fn parse(s: &str) -> (r: Result<Token, TokenParseError>)
        ensures
            match parsed_token(s@) {
                Some(b) => r matches Ok(t) && t@ == b,
                None => r is Err,
            },
            r matches Err(e) ==> (e is NotAToken <==> !(s@.len() >= token_prefix().len() && s@.take(token_prefix().len() as int) == token_prefix())),
    {
        let v = chars_of(s);
        let prefix: Vec<char> = vec!['o', 'x', 'i', 'p', 'a', 't', '.'];
        assert(prefix@ =~= token_prefix());
        if v.len() < prefix.len() {
            return Err(TokenParseError::NotAToken);
        }
        let head = string_of(&v, 0, prefix.len());
        let head_chars = chars_of(head.as_str());
        if !vec_eq(&head_chars, &prefix) {
            assert(v@.subrange(0, 7) =~= s@.take(7));
            return Err(TokenParseError::NotAToken);
        }
        assert(v@.subrange(0, 7) =~= s@.take(7));
        let rest = string_of(&v, prefix.len(), v.len());
        assert(v@.subrange(7, v@.len() as int) =~= s@.skip(7));
        match b64url_decode(rest.as_str()) {
            Some(bytes) => {
                if bytes.len() != 16 {
                    return Err(TokenParseError::DecodeError);
                }
                let mut arr: [u8; 16] = [0u8; 16];
                let mut i: usize = 0;
                while i < 16
                    invariant
                        bytes@.len() == 16,
                        i <= 16,
                        arr@.len() == 16,
                        forall|j: int| 0 <= j < i ==> arr@[j] == bytes@[j],
                    decreases 16 - i,
                {
                    arr[i] = bytes[i];
                    i = i + 1;
                }
                assert(arr@ =~= bytes@);
                Ok(Token { bytes: arr })
            },
            None => Err(TokenParseError::DecodeError),
        }
    }
}

/// What a personal access token record is, as plain values.
pub struct PersonalAccessTokenView {
    pub id: u128,
    pub token_hash: Seq<u8>,
    pub account_id: u128,
    pub expires_at: Option<i128>,
}

/// The stored record of a personal access token: the hash of its secret, its
/// account and optional expiration (Unix time in nanoseconds).
#[derive(Debug)]
pub struct PersonalAccessToken {
    pub id: TokenId,
    pub token_hash: [u8; 32],
    pub account_id: AccountId,
    pub expires_at: Option<i128>,
}

impl View for PersonalAccessToken {
    type V = PersonalAccessTokenView;

    open spec fn view(&self) -> PersonalAccessTokenView {
        PersonalAccessTokenView {
            id: self.id@,
            token_hash: self.token_hash@,
            account_id: self.account_id@,
            expires_at: self.expires_at,
        }
    }
}

fn bytes32_eq(a: &[u8; 32], b: &[u8; 32]) -> (r: bool)
    ensures
        r == (a@ == b@),
{
    let mut i: usize = 0;
    while i < 32
        invariant
            a@.len() == 32,
            b@.len() == 32,
            i <= 32,
            forall|j: int| 0 <= j < i ==> a@[j] == b@[j],
        decreases 32 - i,
    {
        if a[i] != b[i] {
            return false;
        }
        i = i + 1;
    }
    assert(a@ =~= b@);
    true
}

/// The current time as Unix nanoseconds (`time::OffsetDateTime::now_utc`). It
/// is the clock, so nothing is stated of it.
#[verifier::external_body]
pub fn now_utc_nanos() -> i128 {
    time::OffsetDateTime::now_utc().unix_timestamp_nanos()
}

impl PersonalAccessToken {
    /// A fresh token for `account_id`, and the record that keeps its hash; no expiration.
    pub fn new(account_id: AccountId) -> (r: (Token, PersonalAccessToken))
        ensures
            r.1@.token_hash == spec_blake3(r.0@),
            r.1@.account_id == account_id@,
            r.1@.expires_at is None,
    {
        let token = Token::new();
        let pat = PersonalAccessToken {
            id: TokenId::new(),
            token_hash: token.hashed(),
            account_id,
            expires_at: None,
        };
        (token, pat)
    }

    /// Sets the expiration, refused when it lies before `now`.
    pub fn expiring_at(self, expires_at: Option<i128>, now: i128) -> (r: Result<PersonalAccessToken, InvalidExpirationDate>)
        ensures
            match expires_at {
                Some(e) if e < now => r is Err,
                _ => r matches Ok(p) && p@ == (PersonalAccessTokenView { expires_at, ..self@ }),
            },
    {
        match expires_at {
            Some(e) => {
                if e < now {
                    return Err(InvalidExpirationDate);
                }
            },
            None => {},
        }
        let mut pat = self;
        pat.expires_at = expires_at;
        Ok(pat)
    }

    /// Sets the expiration, refused when it lies in the past by the clock.
    pub fn expiring(self, expires_at: Option<i128>) -> (r: Result<PersonalAccessToken, InvalidExpirationDate>)
        ensures
            expires_at is None ==> (r matches Ok(p) && p@ == (PersonalAccessTokenView { expires_at, ..self@ })),
            r matches Ok(p) ==> p@ == (PersonalAccessTokenView { expires_at, ..self@ }),
    {
        let now = now_utc_nanos();
        self.expiring_at(expires_at, now)
    }

    /// Whether `token` is the secret of this record: its hash is the stored one.
    pub fn verify(&self, token: Token) -> (r: bool)
        ensures
            r == (spec_blake3(token@) == self@.token_hash),
    {
        let hash = token.hashed();
        bytes32_eq(&self.token_hash, &hash)
    }

    /// A copy of this record.
    pub fn duplicate(&self) -> (p: PersonalAccessToken)
        ensures
            p@ == self@,
    {
        PersonalAccessToken {
            id: self.id,
            token_hash: self.token_hash,
            account_id: self.account_id,
            expires_at: self.expires_at,
        }
    }
}

} // verus!

//! Account credentials: Argon2 password hashes, the set of credentials of an
//! account keyed by credential id, their verification, and an in-memory store.
use vstd::prelude::*;
use argon2::{PasswordHasher, PasswordVerifier};
use crate::ids::AccountId;
use crate::text::str_eq;
use std::collections::HashMap;

verus! {

broadcast use vstd::std_specs::hash::group_hash_axioms;

#[verifier::external_type_specification]
#[verifier::external_body]
pub struct ExPasswordHashError(argon2::password_hash::Error);

/// Whether `argon2::PasswordHash::new` accepts `hash` as a PHC string.
pub uninterp spec fn phc_parses(hash: Seq<char>) -> bool;

/// Whether `argon2`'s `verify_password` accepts `password` for the PHC string `hash`.
pub uninterp spec fn argon2_accepts(hash: Seq<char>, password: Seq<char>) -> bool;

/// `argon2::PasswordHash::new(hash).is_ok()`: whether the stored hash can be read.
#[verifier::external_body]
fn phc_hash_is_valid(hash: &str) -> (r: bool)
    ensures
        r == phc_parses(hash@),
{
    argon2::PasswordHash::new(hash).is_ok()
}

/// `Argon2::default().verify_password` of `password` against the PHC string
/// `hash`, which must parse. Its result is named, not stated.
#[verifier::external_body]
fn argon2_verify(hash: &str, password: &str) -> (r: bool)
    requires
        phc_parses(hash@),
    ensures
        r == argon2_accepts(hash@, password@),
{
    let parsed = argon2::PasswordHash::new(hash).unwrap();
    argon2::Argon2::default().verify_password(password.as_bytes(), &parsed).is_ok()
}

/// The most characters a password may have for hashing to be sure to succeed:
/// at most four UTF-8 bytes each, they stay within argon2's limit of
/// `0xFFFF_FFFF` password bytes.
pub open spec fn max_password_chars() -> nat {
    0x3FFF_FFFF
}

/// `Argon2::default().hash_password` of `password` with a fresh random salt
/// (`SaltString::generate` on `OsRng`), as a PHC string. The salt is random, so
/// the hash is not named. What is stated is what the `argon2` source shows:
/// with the default parameters and a generated 16-byte salt, the only error is
/// a password longer than `MAX_PWD_LEN` (`0xFFFF_FFFF`) bytes, so a password of
/// at most `max_password_chars()` characters is hashed; and of every successful
/// outcome, the PHC string parses back and verifying the same password against
/// it succeeds (verification recomputes the hash with the salt and parameters
/// that the string records).
#[verifier::external_body]
fn argon2_hash(password: &str) -> (r: Result<String, argon2::password_hash::Error>)
    ensures
        password@.len() <= max_password_chars() ==> r is Ok,
        r matches Ok(h) ==> phc_parses(h@) && argon2_accepts(h@, password@),
{
    let salt = argon2::password_hash::SaltString::generate(&mut argon2::password_hash::rand_core::OsRng);
    argon2::Argon2::default().hash_password(password.as_bytes(), &salt).map(|h| h.to_string())
}

/// Hashing a password failed.
#[derive(Debug)]
pub struct HashError(pub argon2::password_hash::Error);

/// A password, as its Argon2 hash in PHC string form.
#[derive(Clone)]
pub struct Password {
    password_hash: String,
}

impl View for Password {
    type V = Seq<char>;

    closed spec fn view(&self) -> Seq<char> {
        self.password_hash@
    }
}

impl Password {
    /// A password from a stored hash.
    pub fn from_hash(password_hash: String) -> (p: Password)
        ensures
            p@ == password_hash@,
    {
        Password { password_hash }
    }

    /// The stored hash.
    pub fn password_hash(&self) -> (h: &str)
        ensures
            h@ == self@,
    {
        self.password_hash.as_str()
    }

    /// Hashes `password` with a fresh salt. Whatever salt is drawn, a hash that
    /// comes back can be read and accepts `password`.
    pub fn hash(password: &str) -> (r: Result<Password, HashError>)
        ensures
            password@.len() <= max_password_chars() ==> r is Ok,
            r matches Ok(p) ==> phc_parses(p@) && argon2_accepts(p@, password@),
    {
        match argon2_hash(password) {
            Ok(h) => Ok(Password { password_hash: h }),
            Err(e) => Err(HashError(e)),
        }
    }

    /// Whether `password` matches this hash, which must be readable.
    pub fn verify(&self, password: &str) -> (r: bool)
        requires
            phc_parses(self@),
        ensures
            r == argon2_accepts(self@, password@),
    {
        argon2_verify(self.password_hash.as_str(), password)
    }

    /// Whether `password` matches this hash; `None` when the hash cannot be read.
    pub fn try_verify(&self, password: &str) -> (r: Option<bool>)
        ensures
            match r {
                Some(b) => phc_parses(self@) && b == argon2_accepts(self@, password@),
                None => !phc_parses(self@),
            },
    {
        if phc_hash_is_valid(self.password_hash.as_str()) {
            Some(self.verify(password))
        } else {
            None
        }
    }

    /// A copy of this password.
    pub fn duplicate(&self) -> (p: Password)
        ensures
            p@ == self@,
    {
        Password { password_hash: String::from_str(self.password_hash.as_str()) }
    }
}

/// What a credential is, as plain values.
pub enum CredsView {
    Password(Seq<char>),
}

/// A credential of an account.
pub enum Creds {
    Password(Password),
}

impl View for Creds {
    type V = CredsView;

    open spec fn view(&self) -> CredsView {
        match self {
            Creds::Password(p) => CredsView::Password(p@),
        }
    }
}

/// The identifier (and kind) of every password credential: `password`.
pub open spec fn password_id() -> Seq<char> {
    seq!['p', 'a', 's', 's', 'w', 'o', 'r', 'd']
}

/// A credential that can be offered to log in.
pub enum VerifyCreds {
    Password(String),
}

/// The hash of a stored credential can be read.
pub open spec fn creds_readable(c: CredsView) -> bool {
    match c {
        CredsView::Password(h) => phc_parses(h),
    }
}

/// A stored credential accepts an offered one.
pub open spec fn creds_accept(c: CredsView, offered: VerifyCreds) -> bool {
    match (c, offered) {
        (CredsView::Password(h), VerifyCreds::Password(p)) => argon2_accepts(h, p@),
    }
}

fn password_id_string() -> (s: String)
    ensures
        s@ == password_id(),
{
    let v: Vec<char> = vec!['p', 'a', 's', 's', 'w', 'o', 'r', 'd'];
    assert(v@ =~= password_id());
    let s = crate::text::string_of(&v, 0, v.len());
    assert(v@.subrange(0, v@.len() as int) =~= v@);
    s
}

impl Creds {
    /// The identifier under which the credential is kept: `password`.
    pub fn id(&self) -> (s: String)
        ensures
            s@ == password_id(),
    {
        match self {
            Creds::Password(_) => password_id_string(),
        }
    }

    /// The kind of the credential: `password`.
    pub fn kind(&self) -> (s: String)
        ensures
            s@ == password_id(),
    {
        match self {
            Creds::Password(_) => password_id_string(),
        }
    }

    /// Whether this credential accepts `other`; its hash must be readable.
    pub fn matches(&self, other: &VerifyCreds) -> (r: bool)
        requires
            creds_readable(self@),
        ensures
            r == creds_accept(self@, *other),
    {
        match (self, other) {
            (Creds::Password(hash), VerifyCreds::Password(pwd)) => hash.verify(pwd.as_str()),
        }
    }

    /// Whether the hash of this credential can be read.
    pub fn is_readable(&self) -> (r: bool)
        ensures
            r == creds_readable(self@),
    {
        match self {
            Creds::Password(p) => phc_hash_is_valid(p.password_hash.as_str()),
        }
    }

    /// A credential holding a password.
    pub fn from_password(p: Password) -> (c: Creds)
        ensures
            c@ == CredsView::Password(p@),
    {
        Creds::Password(p)
    }

    /// A copy of this credential.
    pub fn duplicate(&self) -> (c: Creds)
        ensures
            c@ == self@,
    {
        match self {
            Creds::Password(p) => Creds::Password(p.duplicate()),
        }
    }
}

/// A credential with this identifier is already registered.
#[derive(Debug)]
pub enum AddError {
    AlreadyPresent,
}

/// No credential accepted what was offered.
#[derive(Debug)]
pub struct InvalidCredentials;

/// What the credentials of an account are: each credential by its identifier.
pub type CredsMap = Map<Seq<char>, CredsView>;

/// The map that a sequence of (identifier, credential) pairs denotes.
pub open spec fn creds_map(s: Seq<(String, Creds)>) -> CredsMap
    decreases s.len(),
{
    if s.len() == 0 {
        Map::empty()
    } else {
        creds_map(s.drop_last()).insert(s.last().0@, s.last().1@)
    }
}

pub open spec fn unique_creds_ids(s: Seq<(String, Creds)>) -> bool {
    forall|i: int, j: int| 0 <= i < s.len() && 0 <= j < s.len() && i != j ==> s[i].0@ != s[j].0@
}

proof fn lemma_creds_map_dom(s: Seq<(String, Creds)>, k: Seq<char>)
    ensures
        creds_map(s).dom().contains(k) <==> exists|i: int| 0 <= i < s.len() && s[i].0@ == k,
    decreases s.len(),
{
    if s.len() > 0 {
        lemma_creds_map_dom(s.drop_last(), k);
        if exists|i: int| 0 <= i < s.len() && s[i].0@ == k {
            let i = choose|i: int| 0 <= i < s.len() && s[i].0@ == k;
            if i < s.len() - 1 {
                assert(s.drop_last()[i] == s[i]);
            }
        }
        if exists|i: int| 0 <= i < s.len() - 1 && s.drop_last()[i].0@ == k {
            let i = choose|i: int| 0 <= i < s.len() - 1 && s.drop_last()[i].0@ == k;
            assert(s[i] == s.drop_last()[i]);
        }
    }
}

proof fn lemma_creds_map_value(s: Seq<(String, Creds)>, i: int)
    requires
        unique_creds_ids(s),
        0 <= i < s.len(),
    ensures
        creds_map(s).dom().contains(s[i].0@),
        creds_map(s)[s[i].0@] == s[i].1@,
    decreases s.len(),
{
    if i < s.len() - 1 {
        let t = s.drop_last();
        assert(t[i] == s[i]);
        assert(unique_creds_ids(t)) by {
            assert forall|a: int, b: int| 0 <= a < t.len() && 0 <= b < t.len() && a != b implies t[a].0@ != t[b].0@ by {
                assert(t[a] == s[a]);
                assert(t[b] == s[b]);
            }
        }
        lemma_creds_map_value(t, i);
        assert(s.last().0@ != s[i].0@);
    }
}

proof fn lemma_creds_map_congruent(s: Seq<(String, Creds)>, t: Seq<(String, Creds)>)
    requires
        s.len() == t.len(),
        forall|i: int| 0 <= i < s.len() ==> s[i].0@ == t[i].0@ && s[i].1@ == t[i].1@,
    ensures
        creds_map(s) == creds_map(t),
    decreases s.len(),
{
    if s.len() > 0 {
        lemma_creds_map_congruent(s.drop_last(), t.drop_last());
    }
}

/// The credentials of an account, at most one per identifier.
pub struct Credentials {
    account_id: AccountId,
    creds: Vec<(String, Creds)>,
}

/// What the credentials of an account are, as plain values.
pub struct CredentialsView {
    pub account_id: u128,
    pub creds: CredsMap,
}

impl View for Credentials {
    type V = CredentialsView;

    closed spec fn view(&self) -> CredentialsView {
        CredentialsView { account_id: self.account_id@, creds: creds_map(self.creds@) }
    }
}

impl Credentials {
    #[verifier::type_invariant]
    spec fn ids_are_unique(self) -> bool {
        unique_creds_ids(self.creds@)
    }

    /// The account these credentials belong to.
    pub fn account_id(&self) -> (a: AccountId)
        ensures
            a@ == self@.account_id,
    {
        self.account_id
    }

    /// No credentials yet, for `account_id`.
    pub fn new(account_id: AccountId) -> (c: Credentials)
        ensures
            c@.account_id == account_id@,
            c@.creds == CredsMap::empty(),
    {
        let c = Credentials { account_id, creds: Vec::new() };
        assert(c@.creds =~= creds_map(Seq::empty()));
        c
    }

    /// Credentials built from (identifier, credential) pairs, later pairs
    /// replacing earlier ones with the same identifier.
    pub fn from_entries(account_id: AccountId, entries: Vec<(String, Creds)>) -> (c: Credentials)
        ensures
            c@.account_id == account_id@,
            c@.creds == creds_map(entries@),
    {
        let mut c = Credentials::new(account_id);
        let mut i: usize = 0;
        while i < entries.len()
            invariant
                i <= entries@.len(),
                c@.account_id == account_id@,
                c@.creds == creds_map(entries@.take(i as int)),
            decreases entries.len() - i,
        {
            let id = String::from_str(entries[i].0.as_str());
            let cr = entries[i].1.duplicate();
            c.insert_entry(id, cr);
            assert(entries@.take(i + 1).drop_last() =~= entries@.take(i as int));
            i = i + 1;
        }
        assert(entries@.take(entries@.len() as int) =~= entries@);
        c
    }

    fn position(&self, id: &str) -> (r: Option<usize>)
        ensures
            match r {
                Some(i) => i < self.creds@.len() && self.creds@[i as int].0@ == id@,
                None => forall|i: int| 0 <= i < self.creds@.len() ==> self.creds@[i].0@ != id@,
            },
    {
        let mut i: usize = 0;
        while i < self.creds.len()
            invariant
                i <= self.creds@.len(),
                forall|j: int| 0 <= j < i ==> self.creds@[j].0@ != id@,
            decreases self.creds.len() - i,
        {
            if str_eq(self.creds[i].0.as_str(), id) {
                return Some(i);
            }
            i = i + 1;
        }
        None
    }

    /// Whether a credential is registered under `id`.
    pub fn contains_id(&self, id: &str) -> (r: bool)
        ensures
            r == self@.creds.contains_key(id@),
    {
        proof {
            use_type_invariant(self);
            lemma_creds_map_dom(self.creds@, id@);
        }
        match self.position(id) {
            Some(i) => {
                assert(self.creds@[i as int].0@ == id@);
                true
            },
            None => false,
        }
    }

    fn insert_entry(&mut self, id: String, creds: Creds)
        ensures
            final(self)@.account_id == old(self)@.account_id,
            final(self)@.creds == old(self)@.creds.insert(id@, creds@),
    {
        proof {
            use_type_invariant(&*self);
        }
        let ghost old_s = self.creds@;
        let ghost k = id@;
        let ghost v = creds@;
        match self.position(id.as_str()) {
            Some(i) => {
                let mut s = Vec::new();
                std::mem::swap(&mut s, &mut self.creds);
                s.set(i, (id, creds));
                proof {
                    let t = s@;
                    assert(unique_creds_ids(t)) by {
                        assert forall|a: int, b: int| 0 <= a < t.len() && 0 <= b < t.len() && a != b implies t[a].0@ != t[b].0@ by {
                            if a != i {
                                assert(t[a] == old_s[a]);
                            }
                            if b != i {
                                assert(t[b] == old_s[b]);
                            }
                        }
                    }
                    let m0 = creds_map(old_s);
                    let m1 = creds_map(t);
                    assert forall|key: Seq<char>| m1.dom().contains(key) <==> m0.insert(k, v).dom().contains(key) by {
                        lemma_creds_map_dom(t, key);
                        lemma_creds_map_dom(old_s, key);
                        if key == k {
                            assert(t[i as int].0@ == k);
                        }
                        if exists|j: int| 0 <= j < old_s.len() && old_s[j].0@ == key {
                            let j = choose|j: int| 0 <= j < old_s.len() && old_s[j].0@ == key;
                            if j != i {
                                assert(t[j] == old_s[j]);
                            }
                        }
                        if exists|j: int| 0 <= j < t.len() && t[j].0@ == key {
                            let j = choose|j: int| 0 <= j < t.len() && t[j].0@ == key;
                            if j != i {
                                assert(t[j] == old_s[j]);
                            }
                        }
                    }
                    assert forall|key: Seq<char>| m1.dom().contains(key) implies m1[key] == m0.insert(k, v)[key] by {
                        lemma_creds_map_dom(t, key);
                        let j = choose|j: int| 0 <= j < t.len() && t[j].0@ == key;
                        lemma_creds_map_value(t, j);
                        if j != i {
                            assert(t[j] == old_s[j]);
                            lemma_creds_map_value(old_s, j);
                        }
                    }
                    assert(m1 =~= m0.insert(k, v));
                }
                self.creds = s;
            },
            None => {
                let mut s = Vec::new();
                std::mem::swap(&mut s, &mut self.creds);
                s.push((id, creds));
                proof {
                    assert(s@.drop_last() =~= old_s);
                    let t = s@;
                    assert forall|a: int, b: int| 0 <= a < t.len() && 0 <= b < t.len() && a != b implies t[a].0@ != t[b].0@ by {
                        if a < old_s.len() {
                            assert(t[a] == old_s[a]);
                        }
                        if b < old_s.len() {
                            assert(t[b] == old_s[b]);
                        }
                    }
                }
                self.creds = s;
            },
        }
    }

    /// Registers `credentials` under its identifier; refused when one is already there.
    pub fn add(&mut self, credentials: Creds) -> (r: Result<(), AddError>)
        ensures
            final(self)@.account_id == old(self)@.account_id,
            old(self)@.creds.contains_key(password_id()) ==> r is Err && final(self)@.creds == old(self)@.creds,
            !old(self)@.creds.contains_key(password_id()) ==> r is Ok && final(self)@.creds == old(self)@.creds.insert(password_id(), credentials@),
    {
        let id = credentials.id();
        if self.contains_id(id.as_str()) {
            return Err(AddError::AlreadyPresent);
        }
        self.insert_entry(id, credentials);
        Ok(())
    }

    /// Registers `credentials` under its identifier, replacing the one there.
    pub fn replace(&mut self, credentials: Creds)
        ensures
            final(self)@.account_id == old(self)@.account_id,
            final(self)@.creds == old(self)@.creds.insert(password_id(), credentials@),
    {
        let id = credentials.id();
        self.insert_entry(id, credentials);
    }

    /// Every stored credential can be read.
    pub open spec fn all_readable(&self) -> bool {
        forall|k: Seq<char>| #[trigger] self@.creds.contains_key(k) ==> creds_readable(self@.creds[k])
    }

    /// Accepts `credentials` when some stored credential accepts them. Every
    /// stored hash must be readable.
    pub fn verify(&self, credentials: VerifyCreds) -> (r: Result<(), InvalidCredentials>)
        requires
            self.all_readable(),
        ensures
            r is Ok <==> exists|k: Seq<char>| #[trigger] self@.creds.contains_key(k) && creds_accept(self@.creds[k], credentials),
    {
        proof {
            use_type_invariant(self);
        }
        let mut i: usize = 0;
        while i < self.creds.len()
            invariant
                unique_creds_ids(self.creds@),
                self.all_readable(),
                i <= self.creds@.len(),
                forall|j: int| 0 <= j < i ==> !creds_accept(#[trigger] self.creds@[j].1@, credentials),
            decreases self.creds.len() - i,
        {
            proof {
                lemma_creds_map_value(self.creds@, i as int);
                assert(self@.creds.contains_key(self.creds@[i as int].0@));
            }
            if self.creds[i].1.matches(&credentials) {
                return Ok(());
            }
            i = i + 1;
        }
        proof {
            assert forall|k: Seq<char>| #[trigger] self@.creds.contains_key(k) implies !creds_accept(self@.creds[k], credentials) by {
                lemma_creds_map_dom(self.creds@, k);
                let j = choose|j: int| 0 <= j < self.creds@.len() && self.creds@[j].0@ == k;
                lemma_creds_map_value(self.creds@, j);
            }
        }
        Err(InvalidCredentials)
    }

    /// Whether every stored hash can be read.
    pub fn check_readable(&self) -> (r: bool)
        ensures
            r == self.all_readable(),
    {
        proof {
            use_type_invariant(self);
        }
        let mut i: usize = 0;
        while i < self.creds.len()
            invariant
                unique_creds_ids(self.creds@),
                i <= self.creds@.len(),
                forall|j: int| 0 <= j < i ==> creds_readable(#[trigger] self.creds@[j].1@),
            decreases self.creds.len() - i,
        {
            if !self.creds[i].1.is_readable() {
                proof {
                    lemma_creds_map_value(self.creds@, i as int);
                    assert(self@.creds.contains_key(self.creds@[i as int].0@));
                }
                return false;
            }
            i = i + 1;
        }
        proof {
            assert forall|k: Seq<char>| #[trigger] self@.creds.contains_key(k) implies creds_readable(self@.creds[k]) by {
                lemma_creds_map_dom(self.creds@, k);
                let j = choose|j: int| 0 <= j < self.creds@.len() && self.creds@[j].0@ == k;
                lemma_creds_map_value(self.creds@, j);
            }
        }
        true
    }

    /// As `verify`, checking first that every stored hash can be read: `None` when one cannot.
    pub fn try_verify(&self, credentials: VerifyCreds) -> (r: Option<Result<(), InvalidCredentials>>)
        ensures
            match r {
                Some(res) => self.all_readable() && (res is Ok <==> exists|k: Seq<char>| #[trigger] self@.creds.contains_key(k) && creds_accept(self@.creds[k], credentials)),
                None => !self.all_readable(),
            },
    {
        if self.check_readable() {
            Some(self.verify(credentials))
        } else {
            None
        }
    }

    /// Whether no credential is registered.
    pub fn is_empty(&self) -> (r: bool)
        ensures
            r == (self@.creds.dom() == Set::<Seq<char>>::empty()),
    {
        proof {
            use_type_invariant(self);
        }
        if self.creds.len() == 0 {
            assert(self@.creds =~= Map::<Seq<char>, CredsView>::empty());
            true
        } else {
            proof {
                lemma_creds_map_value(self.creds@, 0);
                assert(self@.creds.dom().contains(self.creds@[0].0@));
            }
            false
        }
    }

    /// The stored (identifier, credential) pairs.
    pub fn values(&self) -> (r: Vec<(String, Creds)>)
        ensures
            creds_map(r@) == self@.creds,
            unique_creds_ids(r@),
    {
        proof {
            use_type_invariant(self);
        }
        let mut r: Vec<(String, Creds)> = Vec::new();
        let mut i: usize = 0;
        while i < self.creds.len()
            invariant
                i <= self.creds@.len(),
                r@.len() == i,
                forall|j: int| 0 <= j < i ==> r@[j].0@ == self.creds@[j].0@ && r@[j].1@ == self.creds@[j].1@,
            decreases self.creds.len() - i,
        {
            r.push((String::from_str(self.creds[i].0.as_str()), self.creds[i].1.duplicate()));
            i = i + 1;
        }
        proof {
            lemma_creds_map_congruent(r@, self.creds@);
        }
        r
    }

    /// A copy of these credentials.
    pub fn duplicate(&self) -> (c: Credentials)
        ensures
            c@ == self@,
    {
        let entries = self.values();
        Credentials::from_entries(self.account_id, entries)
    }
}

/// Credentials kept in memory, one set per account, keyed by the account's identifier.
pub struct InMemoryCredentials {
    inner: HashMap<u128, Credentials>,
}

impl InMemoryCredentials {
    #[verifier::type_invariant]
    spec fn keyed_by_account(self) -> bool {
        forall|a: u128| #[trigger] self.inner@.contains_key(a) ==> self.inner@[a]@.account_id == a
    }

    /// The stored credentials of each account.
    pub closed spec fn stored(&self) -> Map<u128, CredsMap> {
        Map::new(|a: u128| self.inner@.contains_key(a), |a: u128| self.inner@[a]@.creds)
    }

    /// An empty store.
    pub fn new() -> (r: InMemoryCredentials)
        ensures
            r.stored() == Map::<u128, CredsMap>::empty(),
    {
        let r = InMemoryCredentials { inner: HashMap::new() };
        assert(r.stored() =~= Map::<u128, CredsMap>::empty());
        r
    }

    /// The stored credentials of `account_id`, or none when nothing is stored for it.
    pub fn for_account(&self, account_id: AccountId) -> (c: Credentials)
        ensures
            c@.account_id == account_id@,
            self.stored().contains_key(account_id@) ==> c@.creds == self.stored()[account_id@],
            !self.stored().contains_key(account_id@) ==> c@.creds == CredsMap::empty(),
    {
        proof {
            use_type_invariant(self);
        }
        match self.inner.get(&account_id.as_u128()) {
            Some(c) => c.duplicate(),
            None => Credentials::new(account_id),
        }
    }

    /// Stores `credentials` for its account, unless it is empty; returns it.
    pub fn save(&mut self, credentials: Credentials) -> (r: Credentials)
        ensures
            r@ == credentials@,
            credentials@.creds.dom() == Set::<Seq<char>>::empty() ==> final(self).stored() == old(self).stored(),
            credentials@.creds.dom() != Set::<Seq<char>>::empty() ==> final(self).stored() == old(self).stored().insert(credentials@.account_id, credentials@.creds),
    {
        proof {
            use_type_invariant(&*self);
        }
        if credentials.is_empty() {
            return credentials;
        }
        let copy = credentials.duplicate();
        let a = credentials.account_id().as_u128();
        let mut m = HashMap::new();
        std::mem::swap(&mut m, &mut self.inner);
        m.insert(a, credentials);
        self.inner = m;
        assert(self.stored() =~= old(self).stored().insert(copy@.account_id, copy@.creds));
        copy
    }
}

} // verus!

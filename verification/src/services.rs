//! The decisions of the account, session, token, upload and collection
//! services, taken on what their stores returned.
use vstd::prelude::*;
use crate::account::Account;
use crate::collection::{file_ids, refresh, Collection, CollectionView, InMemoryCollectionStore, RefreshCollection};
use crate::credentials::{
    argon2_accepts, creds_accept, max_password_chars, password_id, phc_parses, CredsMap, CredsView, Credentials, Creds,
    HashError, InvalidCredentials, Password, VerifyCreds,
};
use crate::file::{File, FileView};
use crate::file_store::{files_view, lists_each_file_once, search_items, InMemoryFileMetadata};
use crate::paginate::Paginate;
use crate::tags::Filter;
use crate::ids::{AccountId, CollectionId};
use crate::paginate::Slice;
use crate::pat::{blake3_hash, spec_blake3, InvalidExpirationDate, PersonalAccessToken, Token};
use crate::session::{max_timestamp_nanos, session_duration_nanos, Session};
use crate::tag::{size_key, valid_tag_value};
use crate::text::decimal;

verus! {

/// Credentials holding one password whose hash accepts `password`.
pub open spec fn holds_password_for(c: CredsMap, password: Seq<char>) -> bool {
    exists|h: Seq<char>|
        c == CredsMap::empty().insert(password_id(), CredsView::Password(h))
        && phc_parses(h) && #[trigger] argon2_accepts(h, password)
}

/// The credentials of a new account: its password, hashed with a fresh salt.
pub fn password_credentials(account_id: AccountId, password: &str) -> (r: Result<Credentials, HashError>)
    ensures
        password@.len() <= max_password_chars() ==> r is Ok,
        r matches Ok(c) ==> c@.account_id == account_id@ && holds_password_for(c@.creds, password@),
{
    let hash = Password::hash(password)?;
    let ghost h = hash@;
    let mut c = Credentials::new(account_id);
    let added = c.add(Creds::from_password(hash));
    assert(added is Ok);
    assert(c@.creds == CredsMap::empty().insert(password_id(), CredsView::Password(h)));
    Ok(c)
}

/// The credentials after a password change: the password is replaced by the new one.
pub fn with_new_password(credentials: Credentials, password: &str) -> (r: Result<Credentials, HashError>)
    ensures
        password@.len() <= max_password_chars() ==> r is Ok,
        r matches Ok(c) ==> c@.account_id == credentials@.account_id && exists|h: Seq<char>|
            c@.creds == credentials@.creds.insert(password_id(), CredsView::Password(h))
            && phc_parses(h) && #[trigger] argon2_accepts(h, password@),
{
    let hash = Password::hash(password)?;
    let ghost h = hash@;
    let mut c = credentials;
    c.replace(Creds::from_password(hash));
    assert(c@.creds == credentials@.creds.insert(password_id(), CredsView::Password(h)));
    Ok(c)
}

/// Why an account could not be created.
#[derive(Debug)]
pub enum CreateAccountError {
    /// Looking the username up failed.
    Load(String),
    /// An account with this username exists.
    AlreadyExists,
    /// Saving the account failed.
    SaveAccount(String),
    /// Hashing the password failed.
    InvalidPassword(HashError),
    /// Saving the credentials failed.
    SaveCredentials(String),
}

/// Why a password could not be changed.
#[derive(Debug)]
pub enum ChangePasswordError {
    LoadCredentials(String),
    InvalidPassword(HashError),
    SaveCredentials(String),
}

/// The account to create for `username`, refused when the username is taken.
pub fn new_account(username_taken: bool, username: &str) -> (r: Result<Account, CreateAccountError>)
    ensures
        username_taken ==> r matches Err(CreateAccountError::AlreadyExists),
        !username_taken ==> (r matches Ok(a) && a@.username == username@),
{
    if username_taken {
        return Err(CreateAccountError::AlreadyExists);
    }
    Ok(Account::create(username))
}

/// Why a login failed.
#[derive(Debug)]
pub enum AuthenticationFailed {
    /// Looking the username up failed.
    ByUsernameError(String),
    /// Loading the credentials failed.
    CredentialsError(String),
    /// No such account, or the password was wrong.
    Unauthorized,
}

/// A password login of `account` (found by its username) against its
/// credentials, whose stored hashes must be readable.
pub fn authenticate(account: Account, credentials: &Credentials, password: String) -> (r: Result<Account, AuthenticationFailed>)
    requires
        credentials.all_readable(),
    ensures
        (exists|k: Seq<char>| #[trigger] credentials@.creds.contains_key(k)
            && creds_accept(credentials@.creds[k], VerifyCreds::Password(password)))
            ==> (r matches Ok(a) && a@ == account@),
        !(exists|k: Seq<char>| #[trigger] credentials@.creds.contains_key(k)
            && creds_accept(credentials@.creds[k], VerifyCreds::Password(password)))
            ==> r matches Err(AuthenticationFailed::Unauthorized),
{
    match credentials.verify(VerifyCreds::Password(password)) {
        Ok(()) => Ok(account),
        Err(_) => Err(AuthenticationFailed::Unauthorized),
    }
}

/// A password login, checking first that the stored hashes can be read:
/// `None` when one cannot.
pub fn try_authenticate(account: Account, credentials: &Credentials, password: String) -> (r: Option<Result<Account, AuthenticationFailed>>)
    ensures
        r is None <==> !credentials.all_readable(),
        r matches Some(res) ==> (res is Ok <==> exists|k: Seq<char>| #[trigger] credentials@.creds.contains_key(k)
            && creds_accept(credentials@.creds[k], VerifyCreds::Password(password))),
        r matches Some(Ok(a)) ==> a@ == account@,
        r matches Some(Err(e)) ==> e is Unauthorized,
{
    if credentials.check_readable() {
        Some(authenticate(account, credentials, password))
    } else {
        None
    }
}

/// The first step of a password login, on what looking the username up gave:
/// the account when there is one; no account refuses the login, and a failed
/// lookup is reported with its message.
pub fn login_account(lookup: Result<Option<Account>, String>) -> (r: Result<Account, AuthenticationFailed>)
    ensures
        match lookup {
            Err(e) => r matches Err(AuthenticationFailed::ByUsernameError(m)) && m@ == e@,
            Ok(None) => r matches Err(AuthenticationFailed::Unauthorized),
            Ok(Some(a)) => r matches Ok(b) && b@ == a@,
        },
{
    match lookup {
        Err(e) => Err(AuthenticationFailed::ByUsernameError(e)),
        Ok(None) => Err(AuthenticationFailed::Unauthorized),
        Ok(Some(a)) => Ok(a),
    }
}

/// The second step of a password login, on what loading the account's
/// credentials gave: a failed load is reported with its message; otherwise the
/// password is checked as `try_authenticate` does (none when a stored hash
/// cannot be read).
pub fn login_check(account: Account, loaded: Result<Credentials, String>, password: String) -> (r: Option<Result<Account, AuthenticationFailed>>)
    ensures
        match loaded {
            Err(e) => r matches Some(Err(AuthenticationFailed::CredentialsError(m))) && m@ == e@,
            Ok(c) => {
                &&& (r is None <==> !c.all_readable())
                &&& r matches Some(res) ==> (res is Ok <==> exists|k: Seq<char>| #[trigger] c@.creds.contains_key(k)
                    && creds_accept(c@.creds[k], VerifyCreds::Password(password)))
                &&& r matches Some(Ok(a)) ==> a@ == account@
                &&& r matches Some(Err(e)) ==> e is Unauthorized
            },
        },
{
    match loaded {
        Err(e) => Some(Err(AuthenticationFailed::CredentialsError(e))),
        Ok(c) => try_authenticate(account, &c, password),
    }
}

/// Why a session could not be started.
#[derive(Debug)]
pub enum CreateSessionError {
    LoadCredentialsFailed(String),
    InvalidCredentials(InvalidCredentials),
    SaveSessionFailed(String),
}

/// A session for `account`, started at `now`, when its credentials accept `offered`.
pub fn start_session(account: &Account, credentials: &Credentials, offered: VerifyCreds, now: i128) -> (r: Result<Session, CreateSessionError>)
    requires
        credentials.all_readable(),
        now + session_duration_nanos() <= max_timestamp_nanos(),
    ensures
        r is Ok <==> exists|k: Seq<char>| #[trigger] credentials@.creds.contains_key(k) && creds_accept(credentials@.creds[k], offered),
        r matches Ok(s) ==> s@.account_id == account@.id && s@.expires_at == now + session_duration_nanos(),
        r matches Err(e) ==> e is InvalidCredentials,
{
    match credentials.verify(offered) {
        Ok(()) => Ok(Session::create_at(account.id, now)),
        Err(e) => Err(CreateSessionError::InvalidCredentials(e)),
    }
}

/// Why a personal access token could not be created.
#[derive(Debug)]
pub enum CreatePatError {
    InvalidExpirationDate(InvalidExpirationDate),
    SaveFailed(String),
}

/// A new token for `account_id` and its record, expiring at `expires_at`;
/// refused when that lies before `now`.
pub fn issue_token(account_id: AccountId, expires_at: Option<i128>, now: i128) -> (r: Result<(Token, PersonalAccessToken), CreatePatError>)
    ensures
        (expires_at matches Some(e) && e < now) ==> r matches Err(CreatePatError::InvalidExpirationDate(_)),
        !(expires_at matches Some(e) && e < now) ==> (r matches Ok((t, p)) && p@.account_id == account_id@
            && p@.expires_at == expires_at && p@.token_hash == spec_blake3(t@)),
{
    let (token, pat) = PersonalAccessToken::new(account_id);
    match pat.expiring_at(expires_at, now) {
        Ok(p) => Ok((token, p)),
        Err(e) => Err(CreatePatError::InvalidExpirationDate(e)),
    }
}

/// The username of the account that is created when there is none.
pub open spec fn admin_username() -> Seq<char> {
    seq!['a', 'd', 'm', 'i', 'n']
}

/// The account created when there is none, and its generated password.
pub struct InitialAdmin {
    pub username: String,
    pub password: String,
}

/// What setting up the initial administrator saves and reports.
pub struct AdminSetup {
    pub account: Account,
    pub credentials: Credentials,
    pub admin: InitialAdmin,
}

/// Sets up the initial administrator: nothing when accounts exist unless
/// `force`; otherwise the `admin` account (the existing one when forcing and
/// it exists, else a new one) with credentials for `password`.
pub fn plan_initial_admin(count: usize, force: bool, existing: Option<Account>, password: String) -> (r: Result<Option<AdminSetup>, HashError>)
    ensures
        count != 0 && !force ==> r matches Ok(None),
        r matches Ok(Some(setup)) ==> {
            &&& (force && existing is Some) ==> setup.account@ == existing->0@
            &&& !(force && existing is Some) ==> setup.account@.username == admin_username()
            &&& setup.credentials@.account_id == setup.account@.id
            &&& holds_password_for(setup.credentials@.creds, password@)
            &&& setup.admin.username@ == admin_username()
            &&& setup.admin.password@ == password@
        },
        (count == 0 || force) ==> !(r matches Ok(None)),
        password@.len() <= max_password_chars() && (count == 0 || force) ==> r matches Ok(Some(_)),
{
    if count != 0 && !force {
        return Ok(None);
    }
    let name: Vec<char> = vec!['a', 'd', 'm', 'i', 'n'];
    assert(name@ =~= admin_username());
    let username = crate::text::string_of(&name, 0, name.len());
    assert(name@.subrange(0, 5) =~= name@);
    let fresh = Account::create(username.as_str());
    let account = if force {
        match existing {
            Some(e) => e,
            None => fresh,
        }
    } else {
        fresh
    };
    let credentials = password_credentials(account.id, password.as_str())?;
    Ok(Some(AdminSetup { account, credentials, admin: InitialAdmin { username, password } }))
}

/// An ASCII letter or digit.
pub open spec fn is_ascii_alphanumeric(c: char) -> bool {
    (65 <= (c as u32) <= 90) || (97 <= (c as u32) <= 122) || (48 <= (c as u32) <= 57)
}

/// `rand::distributions::Alphanumeric.sample_string(&mut rand::thread_rng(), 16)`:
/// 16 characters drawn at random from `A-Z`, `a-z` and `0-9` (the `rand`
/// source samples each from that charset). Which characters come is random,
/// so only that is stated.
#[verifier::external_body]
fn random_password() -> (s: String)
    ensures
        s@.len() == 16,
        forall|i: int| 0 <= i < 16 ==> is_ascii_alphanumeric(#[trigger] s@[i]),
{
    rand::distributions::DistString::sample_string(&rand::distributions::Alphanumeric, &mut rand::thread_rng(), 16)
}

/// Sets up the initial administrator as `plan_initial_admin` does, with a
/// freshly generated password of 16 letters and digits.
pub fn setup_initial_admin(count: usize, force: bool, existing: Option<Account>) -> (r: Result<Option<AdminSetup>, HashError>)
    ensures
        count != 0 && !force ==> r matches Ok(None),
        (count == 0 || force) ==> r matches Ok(Some(_)),
        r matches Ok(Some(setup)) ==> {
            &&& (force && existing is Some) ==> setup.account@ == existing->0@
            &&& !(force && existing is Some) ==> setup.account@.username == admin_username()
            &&& setup.credentials@.account_id == setup.account@.id
            &&& holds_password_for(setup.credentials@.creds, setup.admin.password@)
            &&& setup.admin.username@ == admin_username()
            &&& setup.admin.password@.len() == 16
            &&& forall|i: int| 0 <= i < 16 ==> is_ascii_alphanumeric(#[trigger] setup.admin.password@[i])
        },
{
    if count != 0 && !force {
        return Ok(None);
    }
    let password = random_password();
    let r = plan_initial_admin(count, force, existing, password);
    r
}

/// The file an upload writes: the owner's file of that name with its content
/// type updated (its tags are left as they are), or a new file.
pub fn prepare_upload(existing: Option<File>, owner_id: AccountId, file_name: &str, content_type: String) -> (f: File)
    requires
        existing is None ==> valid_tag_value(file_name@) && valid_tag_value(content_type@),
    ensures
        match existing {
            Some(e) => f@ == (FileView { content_type: content_type@, ..e@ }),
            None => f@.owner_id == owner_id@ && f@.name == file_name@ && f@.content_type == content_type@
                && f@.size == 0 && f@.hash is None
                && f@.tags == crate::file::default_tag_map(file_name@, content_type@, 0, crate::file::spec_path_extension(file_name@)),
        },
{
    match existing {
        Some(e) => {
            let mut f = e;
            f.content_type = content_type;
            f
        },
        None => File::new(owner_id, file_name, content_type.as_str()),
    }
}

/// All the bytes of an upload, its chunks one after the other.
pub open spec fn content_bytes(chunks: Seq<Vec<u8>>) -> Seq<u8> {
    chunks.map_values(|c: Vec<u8>| c@).flatten()
}

/// The size and BLAKE3 hash of an upload's content, read chunk by chunk.
pub fn content_digest(chunks: &Vec<Vec<u8>>) -> (r: (usize, [u8; 32]))
    requires
        content_bytes(chunks@).len() <= usize::MAX,
    ensures
        r.0 == content_bytes(chunks@).len(),
        r.1@ == spec_blake3(content_bytes(chunks@)),
{
    let mut all: Vec<u8> = Vec::new();
    let mut i: usize = 0;
    while i < chunks.len()
        invariant
            i <= chunks@.len(),
            all@ == content_bytes(chunks@.take(i as int)),
            content_bytes(chunks@).len() <= usize::MAX,
        decreases chunks.len() - i,
    {
        proof {
            lemma_content_bytes_prefix(chunks@, i as int);
        }
        let chunk = &chunks[i];
        let mut j: usize = 0;
        let ghost start = all@;
        while j < chunk.len()
            invariant
                j <= chunk@.len(),
                all@ == start + chunk@.take(j as int),
                start.len() + chunk@.len() <= content_bytes(chunks@).len(),
                content_bytes(chunks@).len() <= usize::MAX,
            decreases chunk.len() - j,
        {
            all.push(chunk[j]);
            j = j + 1;
            assert(all@ =~= start + chunk@.take(j as int));
        }
        assert(chunk@.take(chunk@.len() as int) =~= chunk@);
        i = i + 1;
    }
    assert(chunks@.take(chunks@.len() as int) =~= chunks@);
    let size = all.len();
    (size, blake3_hash(all.as_slice()))
}

proof fn lemma_content_bytes_prefix(chunks: Seq<Vec<u8>>, i: int)
    requires
        0 <= i < chunks.len(),
    ensures
        content_bytes(chunks.take(i + 1)) == content_bytes(chunks.take(i)) + chunks[i]@,
        content_bytes(chunks.take(i + 1)).len() <= content_bytes(chunks).len(),
{
    let a = chunks.take(i).map_values(|c: Vec<u8>| c@);
    let b = chunks.take(i + 1).map_values(|c: Vec<u8>| c@);
    assert(b =~= a.push(chunks[i]@));
    a.lemma_flatten_push(chunks[i]@);
    let whole = chunks.map_values(|c: Vec<u8>| c@);
    let rest = chunks.skip(i + 1).map_values(|c: Vec<u8>| c@);
    assert(whole =~= b + rest);
    vstd::seq_lib::lemma_flatten_concat(b, rest);
}

/// The file once its content is written: its size (and `size` tag) and hash.
pub fn finish_upload(file: File, size: usize, hash: [u8; 32]) -> (f: File)
    ensures
        f@ == (FileView {
            size,
            tags: file@.tags.insert(size_key(), Some(decimal(size as nat))),
            hash: Some(hash@),
            ..file@
        }),
{
    let mut f = file;
    f.set_size(size);
    f.set_hash(hash);
    f
}

/// A collection after an update: the new name and the new (parsed) filter,
/// each only when given.
pub fn update_collection(collection: Collection, name: Option<String>, filter: Option<Filter>) -> (c: Collection)
    ensures
        c@ == (CollectionView {
            name: match name {
                Some(n) => n@,
                None => collection@.name,
            },
            filter: match filter {
                Some(f) => f@,
                None => collection@.filter,
            },
            ..collection@
        }),
{
    let mut c = collection;
    match name {
        Some(n) => c.rename(n),
        None => {},
    }
    match filter {
        Some(f) => c.set_filter(f),
        None => {},
    }
    c
}

/// What refreshing the collections of an account does with one page of them.
pub enum RefreshStep {
    /// Stop: the page is empty or is the last one.
    Done,
    /// Refresh these collections, then list the page after `next`.
    Continue { refresh: Vec<CollectionId>, next: String },
}

/// The next step of refreshing all collections of an account, given a page of
/// them: stop when the page is empty or has no next cursor (the collections of
/// that page are then not refreshed); otherwise refresh each and go on.
pub fn refresh_step(page: &Slice<Collection>) -> (r: RefreshStep)
    ensures
        (page.items@.len() == 0 || page.next is None) ==> r is Done,
        (page.items@.len() != 0 && page.next is Some) ==> (r matches RefreshStep::Continue { refresh, next } && next@ == page.next->0@
            && refresh@.len() == page.items@.len()
            && forall|i: int| 0 <= i < refresh@.len() ==> (#[trigger] refresh@[i])@ == page.items@[i]@.id),
{
    if page.is_empty() {
        return RefreshStep::Done;
    }
    match &page.next {
        None => RefreshStep::Done,
        Some(n) => {
            let mut ids: Vec<CollectionId> = Vec::new();
            let mut i: usize = 0;
            while i < page.items.len()
                invariant
                    i <= page.items@.len(),
                    ids@.len() == i,
                    forall|j: int| 0 <= j < i ==> (#[trigger] ids@[j])@ == page.items@[j]@.id,
                decreases page.items.len() - i,
            {
                ids.push(CollectionId::from_u128(page.items[i].id_value()));
                i = i + 1;
            }
            RefreshStep::Continue { refresh: ids, next: String::from_str(n.as_str()) }
        },
    }
}

/// The identifiers of the files in `s`.
pub open spec fn found_ids(s: Seq<FileView>) -> Set<u128> {
    Set::new(|u: u128| exists|i: int| 0 <= i < s.len() && s[i].id == u)
}

/// Refreshes the collection that `job` names: its files become those that a
/// search of its owner's files with its filter returns for `page`. Answers
/// whether the collection exists; when it does not, nothing changes.
pub fn refresh_collection(
    collections: &mut InMemoryCollectionStore,
    files: &InMemoryFileMetadata,
    job: RefreshCollection,
    page: &Paginate,
) -> (found: bool)
    ensures
        found <==> old(collections).stored().contains_key(job.collection_id@),
        !found ==> final(collections).stored() == old(collections).stored(),
        found ==> exists|w: Seq<FileView>| #[trigger] lists_each_file_once(w, files.stored())
            && final(collections).stored() == old(collections).stored().insert(
            job.collection_id@,
            CollectionView {
                files: found_ids(search_items(
                    w,
                    old(collections).stored()[job.collection_id@].owner_id,
                    old(collections).stored()[job.collection_id@].filter,
                    *page,
                )),
                ..old(collections).stored()[job.collection_id@]
            },
        ),
{
    match collections.by_id(job.collection_id) {
        None => false,
        Some(c) => {
            let owner = AccountId::from_u128(c.owner_value());
            let found = files.search(owner, c.filter(), page);
            let ghost items = files_view(found.items@);
            let refreshed = refresh(c, &found);
            assert(file_ids(found.items@) =~= found_ids(items)) by {
                assert forall|u: u128| file_ids(found.items@).contains(u) implies found_ids(items).contains(u) by {
                    let j = choose|j: int| 0 <= j < found.items@.len() && found.items@[j]@.id == u;
                    assert(items[j] == found.items@[j]@);
                }
                assert forall|u: u128| found_ids(items).contains(u) implies file_ids(found.items@).contains(u) by {
                    let j = choose|j: int| 0 <= j < items.len() && items[j].id == u;
                    assert(items[j] == found.items@[j]@);
                }
            }
            collections.save(refreshed);
            true
        },
    }
}

} // verus!

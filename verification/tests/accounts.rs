use oxidrive::account::{Account, InMemoryAccounts};
use oxidrive::credentials::{AddError, Creds, Credentials, InMemoryCredentials, Password, VerifyCreds};
use oxidrive::ids::AccountId;
use oxidrive::services::{login_account, login_check};
use oxidrive::services::{
    authenticate, new_account, password_credentials, plan_initial_admin, setup_initial_admin, try_authenticate,
    with_new_password, AuthenticationFailed, CreateAccountError,
};

fn hashed(password: &str) -> Creds {
    Creds::from_password(Password::hash(password).unwrap())
}

#[test]
fn it_creates_a_new_account() {
    let account = Account::create("someone");
    assert_eq!(account.username, "someone");
    let other = Account::create("someone");
    assert_ne!(account.id, other.id);
}

#[test]
fn it_adds_a_new_credential() {
    let mut credentials = Credentials::new(AccountId::new());
    let password = "s3cr3t-passw0rd";
    credentials.add(hashed(password)).unwrap();

    credentials.verify(VerifyCreds::Password(password.to_string())).unwrap();
    credentials.verify(VerifyCreds::Password("wrong password".into())).unwrap_err();
}

#[test]
fn it_replaces_a_credential() {
    let mut credentials = Credentials::new(AccountId::new());
    let password = "first-password";
    credentials.add(hashed(password)).unwrap();
    credentials.verify(VerifyCreds::Password(password.to_string())).unwrap();

    credentials.replace(hashed("changed"));

    credentials.verify(VerifyCreds::Password("changed".into())).unwrap();
    credentials.verify(VerifyCreds::Password(password.to_string())).unwrap_err();
}

#[test]
fn a_second_password_is_refused() {
    let mut credentials = Credentials::new(AccountId::new());
    credentials.add(hashed("one")).unwrap();
    assert!(matches!(credentials.add(hashed("two")), Err(AddError::AlreadyPresent)));
    credentials.verify(VerifyCreds::Password("one".into())).unwrap();
}

#[test]
fn credentials_without_password_accept_nothing() {
    let credentials = Credentials::new(AccountId::new());
    assert!(credentials.is_empty());
    credentials.verify(VerifyCreds::Password("anything".into())).unwrap_err();
}

#[test]
fn an_unreadable_hash_is_reported_instead_of_verified() {
    let mut credentials = Credentials::new(AccountId::new());
    credentials.add(Creds::from_password(Password::from_hash("not a phc string".into()))).unwrap();
    assert!(!credentials.check_readable());
    assert!(credentials.try_verify(VerifyCreds::Password("x".into())).is_none());
}

#[test]
fn tests_it_stores_and_loads_credentials_for_a_user() {
    let account = Account::create("admin");
    let mut store = InMemoryCredentials::new();
    let credentials = password_credentials(account.id, "admin-password").unwrap();
    store.save(credentials);

    let loaded = store.for_account(account.id);
    assert_eq!(loaded.account_id(), account.id);
    loaded.verify(VerifyCreds::Password("admin-password".into())).unwrap();

    let nobody = store.for_account(AccountId::new());
    assert!(nobody.is_empty());
}

#[test]
fn a_password_change_replaces_the_old_password() {
    let account = Account::create("admin");
    let credentials = password_credentials(account.id, "old").unwrap();
    let credentials = with_new_password(credentials, "new").unwrap();
    credentials.verify(VerifyCreds::Password("new".into())).unwrap();
    credentials.verify(VerifyCreds::Password("old".into())).unwrap_err();
}

#[test]
fn tests_it_stores_and_loads_an_account_by_id() {
    let mut store = InMemoryAccounts::new();
    let account = Account::create("admin");
    let saved = store.save(account.duplicate());
    assert_eq!(saved.id, account.id);
    let loaded = store.by_id(account.id).unwrap();
    assert_eq!(loaded.id, account.id);
    assert_eq!(loaded.username, "admin");
    assert!(store.by_id(AccountId::new()).is_none());
}

#[test]
fn tests_it_stores_and_loads_an_account_by_username() {
    let mut store = InMemoryAccounts::new();
    let account = Account::create("admin");
    store.save(account.duplicate());
    let loaded = store.by_username("admin").unwrap();
    assert_eq!(loaded.id, account.id);
    assert!(store.by_username("nobody").is_none());
}

#[test]
fn tests_it_counts_accounts() {
    let mut store = InMemoryAccounts::new();
    assert_eq!(store.count(), 0);
    let first = Account::create("first");
    store.save(first.duplicate());
    store.save(Account::create("second"));
    assert_eq!(store.count(), 2);
    let mut renamed = first.duplicate();
    renamed.username = "renamed".into();
    store.save(renamed);
    assert_eq!(store.count(), 2);
    assert_eq!(store.by_id(first.id).unwrap().username, "renamed");
}

#[test]
fn a_taken_username_is_refused() {
    assert!(matches!(new_account(true, "admin"), Err(CreateAccountError::AlreadyExists)));
    assert_eq!(new_account(false, "admin").unwrap().username, "admin");
}

#[test]
fn a_login_checks_the_password() {
    let account = Account::create("admin");
    let credentials = password_credentials(account.id, "pw").unwrap();
    let ok = authenticate(account.duplicate(), &credentials, "pw".into()).unwrap();
    assert_eq!(ok.id, account.id);
    assert!(matches!(
        authenticate(account.duplicate(), &credentials, "nope".into()),
        Err(AuthenticationFailed::Unauthorized)
    ));
    assert!(matches!(try_authenticate(account, &credentials, "pw".into()), Some(Ok(_))));
}

#[test]
fn the_initial_admin_is_created_only_when_needed() {
    assert!(plan_initial_admin(3, false, None, "pw".into()).unwrap().is_none());

    let setup = plan_initial_admin(0, false, None, "pw".into()).unwrap().unwrap();
    assert_eq!(setup.account.username, "admin");
    assert_eq!(setup.admin.username, "admin");
    assert_eq!(setup.admin.password, "pw");
    assert_eq!(setup.credentials.account_id(), setup.account.id);
    setup.credentials.verify(VerifyCreds::Password("pw".into())).unwrap();

    let existing = Account::create("admin");
    let id = existing.id;
    let forced = plan_initial_admin(1, true, Some(existing), "other".into()).unwrap().unwrap();
    assert_eq!(forced.account.id, id);
    forced.credentials.verify(VerifyCreds::Password("other".into())).unwrap();
}

#[test]
fn the_generated_admin_password_is_sixteen_letters_and_digits() {
    assert!(setup_initial_admin(1, false, None).unwrap().is_none());
    let setup = setup_initial_admin(0, false, None).unwrap().unwrap();
    let password = setup.admin.password.clone();
    assert_eq!(password.chars().count(), 16);
    assert!(password.chars().all(|c| c.is_ascii_alphanumeric()));
    assert_eq!(setup.account.username, "admin");
    setup.credentials.verify(VerifyCreds::Password(password)).unwrap();
}

#[test]
fn a_login_maps_lookups_and_checks_to_its_outcome() {
    assert!(matches!(login_account(Ok(None)), Err(AuthenticationFailed::Unauthorized)));
    assert!(matches!(login_account(Err("down".into())), Err(AuthenticationFailed::ByUsernameError(m)) if m == "down"));
    let account = Account::create("admin");
    let id = account.id;
    let found = login_account(Ok(Some(account.duplicate()))).unwrap();
    assert_eq!(found.id, id);

    assert!(matches!(
        login_check(account.duplicate(), Err("gone".into()), "pw".into()),
        Some(Err(AuthenticationFailed::CredentialsError(m))) if m == "gone"
    ));
    let credentials = password_credentials(id, "pw").unwrap();
    assert!(matches!(login_check(account.duplicate(), Ok(credentials.duplicate()), "pw".into()), Some(Ok(a)) if a.id == id));
    assert!(matches!(login_check(account, Ok(credentials), "no".into()), Some(Err(AuthenticationFailed::Unauthorized))));
}

use oxidrive::ids::AccountId;
use oxidrive::pat::{PersonalAccessToken, Token, TokenParseError};
use oxidrive::services::{issue_token, start_session, password_credentials, CreatePatError, CreateSessionError};
use oxidrive::account::Account;
use oxidrive::credentials::VerifyCreds;
use oxidrive::session::Session;

const WEEK_NANOS: i128 = 604_800_000_000_000;

#[test]
fn it_generates_a_prefixed_secure_string() {
    let (token, pat) = PersonalAccessToken::new(AccountId::new());
    let token_s = token.to_display_string();
    assert!(token_s.starts_with("oxipat."));

    let parsed = Token::parse(&token_s).unwrap();
    assert!(parsed == token);

    assert!(pat.verify(token));
}

#[test]
fn a_token_text_is_the_prefix_and_unpadded_url_safe_base64() {
    let token = Token::from_bytes([0xfb; 16]);
    assert_eq!(token.to_display_string(), "oxipat.-_v7-_v7-_v7-_v7-_v7-w");
    let zero = Token::from_bytes([0; 16]);
    assert_eq!(zero.to_display_string(), "oxipat.AAAAAAAAAAAAAAAAAAAAAA");
}

#[test]
fn a_text_without_the_prefix_is_not_a_token() {
    assert!(matches!(Token::parse("AAAAAAAAAAAAAAAAAAAAAA"), Err(TokenParseError::NotAToken)));
    assert!(matches!(Token::parse("oxipat.not base64!"), Err(TokenParseError::DecodeError)));
    assert!(matches!(Token::parse("oxipat.AAAA"), Err(TokenParseError::DecodeError)));
}

#[test]
fn another_token_does_not_verify() {
    let (_token, pat) = PersonalAccessToken::new(AccountId::new());
    let (other, _) = PersonalAccessToken::new(AccountId::new());
    assert!(!pat.verify(other));
}

#[test]
fn the_stored_hash_is_the_blake3_hash_of_the_token() {
    let token = Token::from_bytes([0; 16]);
    let expected = blake3::hash(&[0u8; 16]);
    assert_eq!(&token.hashed(), expected.as_bytes());
}

#[test]
fn it_creates_a_token() {
    let account_id = AccountId::new();
    let now = 1_700_000_000_000_000_000i128;
    let (token, pat) = issue_token(account_id, Some(now + WEEK_NANOS), now).unwrap();
    assert_eq!(pat.account_id, account_id);
    assert_eq!(pat.expires_at, Some(now + WEEK_NANOS));
    assert!(pat.verify(token));

    let (_, forever) = issue_token(account_id, None, now).unwrap();
    assert_eq!(forever.expires_at, None);
}

#[test]
fn it_does_not_create_a_token_with_an_invalid_expiration_date() {
    let now = 1_700_000_000_000_000_000i128;
    let r = issue_token(AccountId::new(), Some(now - 1), now);
    assert!(matches!(r, Err(CreatePatError::InvalidExpirationDate(_))));
}

#[test]
fn an_expiration_date_can_be_set_only_in_the_future() {
    let now = 5_000i128;
    let (_, pat) = PersonalAccessToken::new(AccountId::new());
    assert!(pat.duplicate().expiring_at(Some(4_999), now).is_err());
    assert_eq!(pat.duplicate().expiring_at(Some(5_000), now).unwrap().expires_at, Some(5_000));
    assert_eq!(pat.expiring_at(None, now).unwrap().expires_at, None);
}

#[test]
fn a_session_lasts_one_week() {
    let account_id = AccountId::new();
    let now = 1_700_000_000_000_000_000i128;
    let session = Session::create_at(account_id, now);
    assert_eq!(session.account_id, account_id);
    assert_eq!(session.expires_at, now + WEEK_NANOS);
    let other = Session::create_at(account_id, now);
    assert_ne!(session.id, other.id);
}

#[test]
fn a_session_created_now_expires_in_the_future() {
    let session = Session::create(AccountId::new()).unwrap();
    assert!(session.expires_at > oxidrive::pat::now_utc_nanos());
}

#[test]
fn it_creates_a_new_session_from_credentials() {
    let account = Account::create("admin");
    let credentials = password_credentials(account.id, "password").unwrap();
    let now = 1_000i128;
    let session = start_session(&account, &credentials, VerifyCreds::Password("password".into()), now).unwrap();
    assert_eq!(session.account_id, account.id);
    assert_eq!(session.expires_at, now + WEEK_NANOS);

    let refused = start_session(&account, &credentials, VerifyCreds::Password("wrong".into()), now);
    assert!(matches!(refused, Err(CreateSessionError::InvalidCredentials(_))));
}

#[test]
fn fresh_identifiers_are_version_7_uuids_and_sessions_version_4() {
    let account = AccountId::new().as_u128();
    assert_eq!((account >> 76) & 0xF, 7);
    assert_eq!((account >> 62) & 0x3, 2);
    let session = oxidrive::ids::SessionId::new().as_u128();
    assert_eq!((session >> 76) & 0xF, 4);
    assert_eq!((session >> 62) & 0x3, 2);
    let file = oxidrive::ids::FileId::new().as_u128();
    assert_eq!((file >> 76) & 0xF, 7);
}

#[test]
fn every_token_text_is_twenty_nine_characters() {
    for bytes in [[0u8; 16], [0xff; 16], [7; 16]] {
        let t = Token::from_bytes(bytes);
        let text = t.to_display_string();
        assert_eq!(text.len(), 29);
        assert!(Token::parse(&text).unwrap() == t);
    }
}

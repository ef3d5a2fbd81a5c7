use oxidrive::ids::AccountId;
use oxidrive::session::Session;

#[test]
fn session_from_a_clock_reading_expires_a_week_later() {
    let account = AccountId::from_u128(5);
    let now: i128 = 1_700_000_000_000_000_000;
    let s = Session::create_from(account, now).expect("a session");
    assert_eq!(s.account_id, account);
    assert_eq!(s.expires_at, now + 604_800_000_000_000);
}

#[test]
fn session_from_the_last_representable_start() {
    let account = AccountId::from_u128(6);
    let last: i128 = 253_402_300_799_999_999_999 - 604_800_000_000_000;
    let s = Session::create_from(account, last).expect("a session");
    assert_eq!(s.expires_at, 253_402_300_799_999_999_999);
    assert!(Session::create_from(account, last + 1).is_none());
    assert!(Session::create_from(account, i128::MAX).is_none());
}

#[test]
fn session_from_the_clock_belongs_to_the_account() {
    let account = AccountId::from_u128(7);
    let s = Session::create(account).expect("a session");
    assert_eq!(s.account_id, account);
    assert!(s.expires_at > 604_800_000_000_000);
}

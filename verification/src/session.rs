//! Login sessions: an account's session that expires a week after it starts.
use vstd::prelude::*;
use crate::ids::{AccountId, SessionId};
use crate::pat::now_utc_nanos;

verus! {

/// How long a session lasts: one week, in nanoseconds.
pub open spec fn session_duration_nanos() -> int {
    604_800_000_000_000
}

/// The last instant that a `time::OffsetDateTime` can hold (the end of year
/// 9999, UTC), in Unix nanoseconds.
pub open spec fn max_timestamp_nanos() -> int {
    253_402_300_799_999_999_999
}

/// The latest start from which a session's expiry can still be represented.
pub fn max_session_start() -> (r: i128)
    ensures
        r == max_timestamp_nanos() - session_duration_nanos(),
{
    253_402_300_799_999_999_999i128 - 604_800_000_000_000i128
}

/// What a session is, as plain values.
pub struct SessionView {
    pub id: u128,
    pub account_id: u128,
    pub expires_at: i128,
}

/// A login session of an account, valid until `expires_at` (Unix nanoseconds).
#[derive(Debug)]
pub struct Session {
    pub id: SessionId,
    pub account_id: AccountId,
    pub expires_at: i128,
}

impl View for Session {
    type V = SessionView;

    open spec fn view(&self) -> SessionView {
        SessionView { id: self.id@, account_id: self.account_id@, expires_at: self.expires_at }
    }
}

impl Session {
    /// A new session of `account_id` started at `now`: it expires one week later.
    pub fn create_at(account_id: AccountId, now: i128) -> (s: Session)
        requires
            now + session_duration_nanos() <= max_timestamp_nanos(),
        ensures
            s@.account_id == account_id@,
            s@.expires_at == now + session_duration_nanos(),
    {
        Session { id: SessionId::new(), account_id, expires_at: now + 604_800_000_000_000i128 }
    }

    /// A new session of `account_id` started at the clock reading `now`;
    /// `None` exactly when a week after `now` lies beyond what a timestamp can hold.
    pub fn create_from(account_id: AccountId, now: i128) -> (r: Option<Session>)
        ensures
            r is None <==> now + session_duration_nanos() > max_timestamp_nanos(),
            r matches Some(s) ==> s@.account_id == account_id@ && s@.expires_at == now
                + session_duration_nanos(),
    {
        if now <= 253_402_300_799_999_999_999i128 - 604_800_000_000_000i128 {
            Some(Session::create_at(account_id, now))
        } else {
            None
        }
    }

    /// A new session of `account_id` started now by the clock: it expires a
    /// week after the clock reading (see `create_from`).
    pub fn create(account_id: AccountId) -> (r: Option<Session>)
        ensures
            r matches Some(s) ==> s@.account_id == account_id@ && s@.expires_at
                <= max_timestamp_nanos(),
    {
        Session::create_from(account_id, now_utc_nanos())
    }

    /// A copy of this session.
    pub fn duplicate(&self) -> (s: Session)
        ensures
            s@ == self@,
    {
        Session { id: self.id, account_id: self.account_id, expires_at: self.expires_at }
    }
}

} // verus!

use vstd::prelude::*;
use crate::user::valid_time;

verus! {

/// How long a session lasts, in seconds: one day.
pub const SESSION_TTL_S: i64 = 86400;

/// A server-acknowledged authenticated period of one user. Times are seconds since the
/// Unix epoch.
#[derive(Debug, Clone, Copy, PartialEq, Eq, Structural)]
pub struct Session {
    pub id: i32,
    pub user_id: i32,
    pub expires_at: i64,
    pub created_at: i64,
}

/// The claims that a token carries.
#[derive(Debug, Clone, Copy, PartialEq, Eq, Structural)]
pub struct Claims {
    pub user_id: i32,
    /// Expiry.
    pub exp: i64,
    /// Issued at.
    pub iat: i64,
    /// Not before.
    pub nbf: i64,
}

impl Session {
    /// A session ends strictly after it starts.
    pub open spec fn wf(&self) -> bool {
        self.created_at < self.expires_at
    }

    /// The session that `user_id` opens at `now`.
    pub open spec fn opened(id: i32, user_id: i32, now: int) -> Session {
        Session { id, user_id, expires_at: (now + SESSION_TTL_S) as i64, created_at: now as i64 }
    }

    /// Whether the session is still alive at `now`.
    pub open spec fn alive_at(&self, now: int) -> bool {
        now < self.expires_at
    }

    /// The session with identifier `id` that `user_id` opens at `now`, ending one day later.
    pub fn new(id: i32, user_id: i32, now: i64) -> (r: Session)
        requires
            valid_time(now as int),
        ensures
            r == Session::opened(id, user_id, now as int),
            r.wf(),
    {
        Session { id, user_id, expires_at: now + SESSION_TTL_S, created_at: now }
    }

    /// Whether the session is still alive at `now`.
    pub fn is_alive(&self, now: i64) -> (r: bool)
        ensures
            r == self.alive_at(now as int),
    {
        now < self.expires_at
    }

    pub fn id(&self) -> (r: i32)
        ensures
            r == self.id,
    {
        self.id
    }

    pub fn user_id(&self) -> (r: i32)
        ensures
            r == self.user_id,
    {
        self.user_id
    }

    pub fn expires_at(&self) -> (r: i64)
        ensures
            r == self.expires_at,
    {
        self.expires_at
    }

    pub fn created_at(&self) -> (r: i64)
        ensures
            r == self.created_at,
    {
        self.created_at
    }
}

impl Claims {
    /// The claims of a token issued at `now` for `session`.
    pub open spec fn of_session(session: Session, now: int) -> Claims {
        Claims { user_id: session.user_id, exp: session.expires_at, iat: now as i64, nbf: now as i64 }
    }

    /// Whether the time claims admit the token at `now`.
    pub open spec fn current_at(&self, now: int) -> bool {
        self.nbf <= now < self.exp
    }

    /// The claims of a token issued at `now` for `session`: its user, its expiry, and `now`
    /// as issue and start time.
    pub fn from(session: &Session, now: i64) -> (r: Claims)
        ensures
            r == Claims::of_session(*session, now as int),
    {
        Claims { user_id: session.user_id, exp: session.expires_at, iat: now, nbf: now }
    }
}

} // verus!

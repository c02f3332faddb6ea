use vstd::prelude::*;
use crate::errors::AuthenticateError;

verus! {

/// Consecutive failed attempts after which an account is locked.
pub const LOCK_THRESHOLD: i32 = 3;

/// Lock duration, in seconds, given to a new account.
pub const DEFAULT_LOCK_DURATION_S: i32 = 60;

/// Lock duration factor given to a new account.
pub const DEFAULT_LOCK_DURATION_FACTOR: i32 = 2;

/// Longest lock, in seconds, given to a new account.
pub const DEFAULT_LOCK_DURATION_CAP_S: i32 = 3600;

/// Latest instant the library works with, in seconds since the Unix epoch
/// (9999-12-31T23:59:59Z).
pub const MAX_TIMESTAMP: i64 = 253402300799;

/// An instant that the library's arithmetic on times can hold.
pub open spec fn valid_time(t: int) -> bool {
    0 <= t <= MAX_TIMESTAMP
}

/// An account: identity, password hash and lockout state. Times are seconds since the
/// Unix epoch.
#[derive(Debug, Clone)]
pub struct User {
    pub id: i32,
    pub username: String,
    pub pw_hash: String,
    pub two_fa_secret: Option<String>,
    pub created_at: i64,
    pub is_dev_mode: bool,
    /// Failed attempts since the last success or unlock.
    pub invalid_login_attempts: i32,
    /// Base lock duration in seconds.
    pub lock_duration_s: i32,
    /// Multiplier applied to the base lock duration.
    pub lock_duration_factor: i32,
    /// Upper bound on a lock duration in seconds.
    pub lock_duration_cap_s: i32,
    /// Set exactly while the account is locked.
    pub locked_until: Option<i64>,
}

/// What the public view of an account shows: no hash, no secret, no lockout state.
#[derive(Debug, Clone)]
pub struct UserPublic {
    pub id: i32,
    pub username: String,
    pub created_at: i64,
    pub is_dev_mode: bool,
}

/// A login request.
#[derive(Debug, Clone)]
pub struct LoginInfo {
    pub username: String,
    pub password: String,
}

/// A registration request.
#[derive(Debug, Clone)]
pub struct CreateUser {
    pub name: String,
    pub password: String,
}

/// Result of an attempt to lift a lock.
#[derive(Debug, Clone, Copy, PartialEq, Eq, Structural)]
pub enum UnlockOutcome {
    Unlocked,
    StillLocked,
}

pub open spec fn min_int(a: int, b: int) -> int {
    if a <= b { a } else { b }
}

impl User {
    /// Lock parameters that give a lock duration of at least zero.
    pub open spec fn params_ok(&self) -> bool {
        self.lock_duration_s >= 0 && self.lock_duration_factor >= 0 && self.lock_duration_cap_s >= 0
    }

    /// The lockout state is one that the lockout rules can reach: the counter stays at or
    /// under the threshold, and reaches it only together with a lock.
    pub open spec fn wf(&self) -> bool {
        &&& self.params_ok()
        &&& 0 <= self.invalid_login_attempts <= LOCK_THRESHOLD
        &&& (self.locked_until is None ==> self.invalid_login_attempts < LOCK_THRESHOLD)
    }

    /// `min(base × factor, cap)` seconds.
    pub open spec fn spec_lock_duration(&self) -> int {
        min_int(self.lock_duration_s * self.lock_duration_factor, self.lock_duration_cap_s as int)
    }

    /// The account after the lock is lifted.
    pub open spec fn unlocked(self) -> User {
        User { locked_until: None, invalid_login_attempts: 0, ..self }
    }

    /// The account after a failed attempt at `now`.
    pub open spec fn failed(self, now: int) -> User {
        let n = self.invalid_login_attempts + 1;
        User {
            invalid_login_attempts: n as i32,
            locked_until: if n >= LOCK_THRESHOLD {
                Some((now + self.spec_lock_duration()) as i64)
            } else {
                self.locked_until
            },
            ..self
        }
    }

    /// The account after a successful attempt.
    pub open spec fn succeeded(self) -> User {
        User { invalid_login_attempts: 0, ..self }
    }

    /// Whether a lock set on this account keeps it locked at `now`.
    pub open spec fn still_locked(&self, now: int) -> bool {
        self.locked_until matches Some(t) && t > now
    }

    /// The account after a login attempt with `password` at `now`, and its outcome: the lock
    /// check comes first, then the password check.
    pub open spec fn login(self, password: Seq<char>, now: int) -> (User, Result<(), AuthenticateError>) {
        if self.still_locked(now) {
            (self, Err(AuthenticateError::Locked))
        } else {
            let u = if self.locked_until is Some { self.unlocked() } else { self };
            if u.pw_hash@ != password {
                (u.failed(now), Err(AuthenticateError::WrongCredentials))
            } else {
                (u.succeeded(), Ok(()))
            }
        }
    }

    /// A new account with the default lockout policy and no failed attempt.
    pub open spec fn new_spec(id: i32, username: String, pw_hash: String, created_at: i64) -> User {
        User {
            id,
            username,
            pw_hash,
            two_fa_secret: None,
            created_at,
            is_dev_mode: false,
            invalid_login_attempts: 0,
            lock_duration_s: DEFAULT_LOCK_DURATION_S,
            lock_duration_factor: DEFAULT_LOCK_DURATION_FACTOR,
            lock_duration_cap_s: DEFAULT_LOCK_DURATION_CAP_S,
            locked_until: None,
        }
    }

    /// A new account with the default lockout policy and no failed attempt.
    pub fn new(id: i32, username: String, pw_hash: String, created_at: i64) -> (r: User)
        ensures
            r.id == id,
            r.username == username,
            r.pw_hash == pw_hash,
            r.two_fa_secret is None,
            r.created_at == created_at,
            !r.is_dev_mode,
            r.invalid_login_attempts == 0,
            r.lock_duration_s == DEFAULT_LOCK_DURATION_S,
            r.lock_duration_factor == DEFAULT_LOCK_DURATION_FACTOR,
            r.lock_duration_cap_s == DEFAULT_LOCK_DURATION_CAP_S,
            r.locked_until is None,
            r == User::new_spec(id, username, pw_hash, created_at),
            r.wf(),
    {
        User {
            id,
            username,
            pw_hash,
            two_fa_secret: None,
            created_at,
            is_dev_mode: false,
            invalid_login_attempts: 0,
            lock_duration_s: DEFAULT_LOCK_DURATION_S,
            lock_duration_factor: DEFAULT_LOCK_DURATION_FACTOR,
            lock_duration_cap_s: DEFAULT_LOCK_DURATION_CAP_S,
            locked_until: None,
        }
    }

    /// A copy of the record.
    pub fn copy_record(&self) -> (r: User)
        ensures
            r == *self,
    {
        let two_fa_secret = match &self.two_fa_secret {
            Some(secret) => Some(secret.clone()),
            None => None,
        };
        User {
            id: self.id,
            username: self.username.clone(),
            pw_hash: self.pw_hash.clone(),
            two_fa_secret,
            created_at: self.created_at,
            is_dev_mode: self.is_dev_mode,
            invalid_login_attempts: self.invalid_login_attempts,
            lock_duration_s: self.lock_duration_s,
            lock_duration_factor: self.lock_duration_factor,
            lock_duration_cap_s: self.lock_duration_cap_s,
            locked_until: self.locked_until,
        }
    }

    pub fn id(&self) -> (r: i32)
        ensures
            r == self.id,
    {
        self.id
    }

    /// Tells whether the account's lockout state satisfies `wf`.
    pub fn is_well_formed(&self) -> (r: bool)
        ensures
            r == self.wf(),
    {
        self.lock_duration_s >= 0 && self.lock_duration_factor >= 0 && self.lock_duration_cap_s >= 0
            && 0 <= self.invalid_login_attempts && self.invalid_login_attempts <= LOCK_THRESHOLD
            && (self.locked_until.is_some() || self.invalid_login_attempts < LOCK_THRESHOLD)
    }

    pub fn is_locked(&self) -> (r: bool)
        ensures
            r == self.locked_until is Some,
    {
        self.locked_until.is_some()
    }

    /// Lifts the lock if one is set and has run out at `now`; otherwise changes nothing.
    pub fn unlock(&mut self, now: i64) -> (r: UnlockOutcome)
        ensures
            (old(self).locked_until matches Some(t) && t <= now) ==> (r == UnlockOutcome::Unlocked
                && *final(self) == old(self).unlocked()),
            !(old(self).locked_until matches Some(t) && t <= now) ==> (r == UnlockOutcome::StillLocked
                && *final(self) == *old(self)),
    {
        if let Some(t) = self.locked_until {
            if t <= now {
                self.locked_until = None;
                self.invalid_login_attempts = 0;
                return UnlockOutcome::Unlocked;
            }
        }
        UnlockOutcome::StillLocked
    }

    /// The lock duration in seconds: `min(base × factor, cap)`.
    pub fn lock_duration(&self) -> (r: i64)
        requires
            self.params_ok(),
        ensures
            r == self.spec_lock_duration(),
            0 <= r <= self.lock_duration_cap_s,
    {
        let base = self.lock_duration_s as i64;
        let factor = self.lock_duration_factor as i64;
        assert(0 <= base * factor <= 0x7fff_ffff * 0x7fff_ffff) by (nonlinear_arith)
            requires
                0 <= base <= 0x7fff_ffff,
                0 <= factor <= 0x7fff_ffff,
        ;
        let d = base * factor;
        let cap = self.lock_duration_cap_s as i64;
        if d <= cap {
            d
        } else {
            cap
        }
    }

    /// Locks the account until `now` plus the lock duration.
    fn lock(&mut self, now: i64)
        requires
            old(self).params_ok(),
            valid_time(now as int),
        ensures
            *final(self) == (User { locked_until: Some((now + old(self).spec_lock_duration()) as i64), ..*old(self) }),
    {
        let d = self.lock_duration();
        self.locked_until = Some(now + d);
    }

    /// Counts one failed attempt at `now`, and locks the account once the count reaches
    /// the threshold.
    pub fn increment_invalid_login_attempts(&mut self, now: i64)
        requires
            old(self).params_ok(),
            old(self).invalid_login_attempts < i32::MAX,
            valid_time(now as int),
        ensures
            *final(self) == old(self).failed(now as int),
            old(self).wf() && old(self).locked_until is None ==> final(self).wf(),
    {
        self.invalid_login_attempts = self.invalid_login_attempts + 1;
        if self.invalid_login_attempts >= LOCK_THRESHOLD {
            self.lock(now);
        }
    }

    /// Clears the count of failed attempts.
    pub fn reset_invalid_login_attempts(&mut self)
        ensures
            *final(self) == old(self).succeeded(),
            old(self).wf() ==> final(self).wf(),
    {
        self.invalid_login_attempts = 0;
    }

    /// Whether `password` matches the stored hash.
    pub fn check_password(&self, password: &str) -> (r: bool)
        ensures
            r == (self.pw_hash@ == password@),
    {
        let given = password.to_owned();
        self.pw_hash == given
    }

    /// One login attempt at `now`: a lock that has not run out rejects it without touching
    /// the counter; otherwise an expired lock is lifted, and the password decides between
    /// a failure, which is counted, and a success, which clears the counter.
    pub fn authenticate(&mut self, password: &str, now: i64) -> (r: Result<(), AuthenticateError>)
        requires
            old(self).wf(),
            valid_time(now as int),
        ensures
            (*final(self), r) == old(self).login(password@, now as int),
            final(self).wf(),
    {
        if self.is_locked() && self.unlock(now) == UnlockOutcome::StillLocked {
            return Err(AuthenticateError::Locked);
        }
        if !self.check_password(password) {
            self.increment_invalid_login_attempts(now);
            return Err(AuthenticateError::WrongCredentials);
        }
        self.reset_invalid_login_attempts();
        Ok(())
    }

    /// The public view of the account.
    pub fn to_public(&self) -> (r: UserPublic)
        ensures
            r.id == self.id,
            r.username@ == self.username@,
            r.created_at == self.created_at,
            r.is_dev_mode == self.is_dev_mode,
    {
        UserPublic {
            id: self.id,
            username: self.username.clone(),
            created_at: self.created_at,
            is_dev_mode: self.is_dev_mode,
        }
    }
}

/// A login attempt keeps the account's lockout state reachable, and changes nothing but the
/// counter and the lock.
pub proof fn lemma_login_keeps_wf(u: User, password: Seq<char>, now: int)
    requires
        u.wf(),
        valid_time(now),
    ensures
        u.login(password, now).0.wf(),
        u.login(password, now).0 == (User {
            invalid_login_attempts: u.login(password, now).0.invalid_login_attempts,
            locked_until: u.login(password, now).0.locked_until,
            ..u
        }),
{
}

/// A wrong password on an unlocked account with fewer than two failed attempts adds
/// exactly one to the counter and sets no lock.
pub proof fn lemma_wrong_password_counts_once(u: User, password: Seq<char>, now: int)
    requires
        u.wf(),
        u.invalid_login_attempts < 2,
        u.locked_until is None,
        u.pw_hash@ != password,
    ensures
        u.login(password, now).0.invalid_login_attempts == u.invalid_login_attempts + 1,
        u.login(password, now).0.locked_until is None,
        u.login(password, now).1 == Err::<(), AuthenticateError>(AuthenticateError::WrongCredentials),
{
}

/// The third consecutive failure locks the account until `now + min(base × factor, cap)`,
/// which is `now + 120` under the default policy; until then every attempt, with any
/// password, is rejected as locked and leaves the counter where it is.
pub proof fn lemma_third_failure_locks(u: User, wrong: Seq<char>, now: int, later: Seq<char>, then: int)
    requires
        u.wf(),
        u.invalid_login_attempts == 2,
        u.locked_until is None,
        u.pw_hash@ != wrong,
        valid_time(now),
        now <= then < now + u.spec_lock_duration(),
    ensures
        u.login(wrong, now).1 == Err::<(), AuthenticateError>(AuthenticateError::WrongCredentials),
        u.login(wrong, now).0.invalid_login_attempts == LOCK_THRESHOLD,
        u.login(wrong, now).0.locked_until == Some((now + u.spec_lock_duration()) as i64),
        (u.lock_duration_s == DEFAULT_LOCK_DURATION_S && u.lock_duration_factor == DEFAULT_LOCK_DURATION_FACTOR
            && u.lock_duration_cap_s == DEFAULT_LOCK_DURATION_CAP_S) ==> u.login(wrong, now).0.locked_until == Some((now + 120) as i64),
        u.login(wrong, now).0.login(later, then) == (u.login(wrong, now).0, Err::<(), AuthenticateError>(AuthenticateError::Locked)),
{
    assert(0 <= u.lock_duration_s * u.lock_duration_factor) by (nonlinear_arith)
        requires
            u.lock_duration_s >= 0,
            u.lock_duration_factor >= 0,
    ;
    if u.lock_duration_s == DEFAULT_LOCK_DURATION_S && u.lock_duration_factor == DEFAULT_LOCK_DURATION_FACTOR {
        assert(u.lock_duration_s * u.lock_duration_factor == 120) by (nonlinear_arith)
            requires
                u.lock_duration_s == 60,
                u.lock_duration_factor == 2,
        ;
    }
}

/// A login that succeeds leaves the counter at zero, whatever it was; and a login with the
/// right password succeeds unless a lock that has not run out is set.
pub proof fn lemma_success_resets(u: User, password: Seq<char>, now: int)
    requires
        u.wf(),
    ensures
        u.login(password, now).1 is Ok ==> u.login(password, now).0.invalid_login_attempts == 0,
        (!u.still_locked(now) && u.pw_hash@ == password) ==> u.login(password, now).1 is Ok,
{
}

} // verus!

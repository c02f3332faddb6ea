use vstd::prelude::*;
use crate::errors::{AppError, AuthenticateError, StoreError};
use crate::session::{Claims, Session, SESSION_TTL_S};
use crate::token::{decode_claims, token_claims, verified_payload_of};
use crate::user::{lemma_login_keeps_wf, valid_time, CreateUser, LoginInfo, User, LOCK_THRESHOLD};

verus! {

/// An in-memory record store: users keyed by id with unique usernames, and sessions keyed
/// by id with at most one per user.
pub struct MemoryStore {
    pub users: Vec<User>,
    pub sessions: Vec<Session>,
    pub next_user_id: i32,
    pub next_session_id: i32,
}

/// The contents of a store.
pub struct StoreView {
    pub users: Seq<User>,
    pub sessions: Seq<Session>,
    pub next_user_id: i32,
    pub next_session_id: i32,
}

impl View for MemoryStore {
    type V = StoreView;

    open spec fn view(&self) -> StoreView {
        StoreView {
            users: self.users@,
            sessions: self.sessions@,
            next_user_id: self.next_user_id,
            next_session_id: self.next_session_id,
        }
    }
}

impl StoreView {
    /// Identifiers are positive and below the next one handed out; users have distinct ids
    /// and usernames and a reachable lockout state; sessions have distinct ids and users and
    /// end after they start.
    pub open spec fn wf(&self) -> bool {
        &&& 1 <= self.next_user_id
        &&& 1 <= self.next_session_id
        &&& forall|i: int| 0 <= i < self.users.len() ==> (#[trigger] self.users[i]).wf()
            && 1 <= self.users[i].id < self.next_user_id
        &&& forall|i: int, j: int| 0 <= i < j < self.users.len() ==> (#[trigger] self.users[i]).id
            != (#[trigger] self.users[j]).id && self.users[i].username@ != self.users[j].username@
        &&& forall|i: int| 0 <= i < self.sessions.len() ==> (#[trigger] self.sessions[i]).wf()
            && 1 <= self.sessions[i].id < self.next_session_id
        &&& forall|i: int, j: int| 0 <= i < j < self.sessions.len() ==> (#[trigger] self.sessions[i]).id
            != (#[trigger] self.sessions[j]).id && self.sessions[i].user_id != self.sessions[j].user_id
    }

    pub open spec fn has_user_named(&self, name: Seq<char>) -> bool {
        exists|i: int| 0 <= i < self.users.len() && (#[trigger] self.users[i]).username@ == name
    }

    /// The user whose username is `name`.
    pub open spec fn user_named(&self, name: Seq<char>) -> Option<User> {
        if self.has_user_named(name) {
            Some(self.users[choose|i: int| 0 <= i < self.users.len() && (#[trigger] self.users[i]).username@ == name])
        } else {
            None
        }
    }

    pub open spec fn has_user_id(&self, id: i32) -> bool {
        exists|i: int| 0 <= i < self.users.len() && (#[trigger] self.users[i]).id == id
    }

    pub open spec fn user_id_index(&self, id: i32) -> int {
        choose|i: int| 0 <= i < self.users.len() && (#[trigger] self.users[i]).id == id
    }

    /// The user whose id is `id`.
    pub open spec fn user_with_id(&self, id: i32) -> Option<User> {
        if self.has_user_id(id) {
            Some(self.users[self.user_id_index(id)])
        } else {
            None
        }
    }

    /// The store after the lockout state of `u` is written to the row with its id.
    pub open spec fn with_lockout(self, u: User) -> StoreView {
        if self.has_user_id(u.id) {
            let i = self.user_id_index(u.id);
            StoreView {
                users: self.users.update(
                    i,
                    User {
                        invalid_login_attempts: u.invalid_login_attempts,
                        locked_until: u.locked_until,
                        ..self.users[i]
                    },
                ),
                ..self
            }
        } else {
            self
        }
    }

    /// The store after the row with id `id` gets `password` as its credential.
    pub open spec fn with_password(self, id: i32, password: String) -> StoreView {
        if self.has_user_id(id) {
            let i = self.user_id_index(id);
            StoreView { users: self.users.update(i, User { pw_hash: password, ..self.users[i] }), ..self }
        } else {
            self
        }
    }

    /// The store without the user whose id is `id`.
    pub open spec fn without_user_id(self, id: i32) -> StoreView {
        if self.has_user_id(id) {
            StoreView { users: self.users.remove(self.user_id_index(id)), ..self }
        } else {
            self
        }
    }

    /// What a login as `name` with `password` at `now` gives. An unknown name is reported
    /// as wrong credentials; a lock that holds stops the attempt before the password is
    /// looked at and writes nothing; otherwise the new lockout state is written, and a
    /// success opens a session.
    pub open spec fn login(self, name: Seq<char>, password: Seq<char>, now: int) -> (StoreView, Result<Session, AppError>) {
        let (write, out) = login_decision(self.user_named(name), password, now);
        let v = match write {
            Some(u) => self.with_lockout(u),
            None => self,
        };
        match out {
            Err(e) => (v, Err(e)),
            Ok(id) => v.open_session(id, now),
        }
    }

    /// The store after registering `name` with `password` at `now`.
    pub open spec fn registered(self, name: String, password: String, now: int) -> StoreView {
        StoreView {
            users: self.users.push(User::new_spec(self.next_user_id, name, password, now as i64)),
            next_user_id: (self.next_user_id + 1) as i32,
            ..self
        }
    }

    /// What registering `name` gives: a duplicate name or an exhausted id space is refused.
    pub open spec fn register(self, name: String, password: String, now: int) -> (StoreView, Result<User, AppError>) {
        if self.has_user_named(name@) {
            (self, Err(AppError::Store(StoreError::DuplicateKey)))
        } else if self.next_user_id == i32::MAX {
            (self, Err(AppError::Store(StoreError::IdsExhausted)))
        } else {
            (self.registered(name, password, now), Ok(User::new_spec(self.next_user_id, name, password, now as i64)))
        }
    }

    pub open spec fn has_session_of(&self, user_id: i32) -> bool {
        exists|i: int| 0 <= i < self.sessions.len() && (#[trigger] self.sessions[i]).user_id == user_id
    }

    pub open spec fn session_index_of(&self, user_id: i32) -> int {
        choose|i: int| 0 <= i < self.sessions.len() && (#[trigger] self.sessions[i]).user_id == user_id
    }

    /// The session of the user `user_id`.
    pub open spec fn session_of(&self, user_id: i32) -> Option<Session> {
        if self.has_session_of(user_id) {
            Some(self.sessions[self.session_index_of(user_id)])
        } else {
            None
        }
    }

    pub open spec fn has_session_id(&self, id: i32) -> bool {
        exists|i: int| 0 <= i < self.sessions.len() && (#[trigger] self.sessions[i]).id == id
    }

    pub open spec fn session_id_index(&self, id: i32) -> int {
        choose|i: int| 0 <= i < self.sessions.len() && (#[trigger] self.sessions[i]).id == id
    }

    /// The session whose id is `id`.
    pub open spec fn session_with_id(&self, id: i32) -> Option<Session> {
        if self.has_session_id(id) {
            Some(self.sessions[self.session_id_index(id)])
        } else {
            None
        }
    }

    /// The store without the session of `user_id`.
    pub open spec fn without_session_of(self, user_id: i32) -> StoreView {
        if self.has_session_of(user_id) {
            StoreView { sessions: self.sessions.remove(self.session_index_of(user_id)), ..self }
        } else {
            self
        }
    }

    /// The store without the session whose id is `id`.
    pub open spec fn without_session_id(self, id: i32) -> StoreView {
        if self.has_session_id(id) {
            StoreView { sessions: self.sessions.remove(self.session_id_index(id)), ..self }
        } else {
            self
        }
    }

    /// The session that opening one for `user_id` at `now` creates.
    pub open spec fn next_session(self, user_id: i32, now: int) -> Session {
        Session::opened(self.next_session_id, user_id, now)
    }

    /// The store after `user_id` opens a session at `now`, which supersedes its previous one.
    pub open spec fn opened(self, user_id: i32, now: int) -> StoreView {
        let v = self.without_session_of(user_id);
        StoreView {
            sessions: v.sessions.push(self.next_session(user_id, now)),
            next_session_id: (self.next_session_id + 1) as i32,
            ..v
        }
    }

    /// What opening a session for `user_id` at `now` gives: the user must exist and an id
    /// must be left.
    pub open spec fn open_session(self, user_id: i32, now: int) -> (StoreView, Result<Session, AppError>) {
        if !self.has_user_id(user_id) {
            (self, Err(AppError::Store(StoreError::RecordNotFound)))
        } else if self.next_session_id == i32::MAX {
            (self, Err(AppError::Store(StoreError::IdsExhausted)))
        } else {
            (self.opened(user_id, now), Ok(self.next_session(user_id, now)))
        }
    }

    /// What resolving the session of `user_id` at `now` gives: the live session, or an
    /// expired one that is then purged.
    pub open spec fn session_lookup(self, user_id: i32, now: int) -> (StoreView, Result<Session, AppError>) {
        let (delete, out) = session_decision(self.session_of(user_id), now);
        match delete {
            Some(id) => (self.without_session_id(id), out),
            None => (self, out),
        }
    }

    /// What resolving a token whose check gave `claims` does at `now`.
    pub open spec fn token_lookup(self, claims: Result<Claims, AuthenticateError>, now: int) -> (StoreView, Result<Session, AppError>) {
        match claims {
            Err(e) => (self, Err(AppError::Authenticate(e))),
            Ok(c) => self.session_lookup(c.user_id, now),
        }
    }
}

/// The decision of one login attempt at `now` on the account that the username resolved
/// to: the row to write back, if any, and either the error or the id of the user for whom a
/// session is to be opened. An unknown account is reported as wrong credentials; a lock
/// that holds stops the attempt and nothing is written.
pub open spec fn login_decision(user: Option<User>, password: Seq<char>, now: int) -> (Option<User>, Result<i32, AppError>) {
    match user {
        None => (None, Err(AppError::Authenticate(AuthenticateError::WrongCredentials))),
        Some(u) => {
            let (u2, out) = u.login(password, now);
            match out {
                Err(AuthenticateError::Locked) => (None, Err(AppError::Authenticate(AuthenticateError::Locked))),
                Err(e) => (Some(u2), Err(AppError::Authenticate(e))),
                Ok(_) => (Some(u2), Ok(u2.id)),
            }
        },
    }
}

/// The decision on the session that the store holds for a user at `now`: the id of a
/// session to delete, if any, and the outcome. A live session is the answer; an expired one
/// is deleted and reported as expired.
pub open spec fn session_decision(session: Option<Session>, now: int) -> (Option<i32>, Result<Session, AppError>) {
    match session {
        None => (None, Err(AppError::Store(StoreError::RecordNotFound))),
        Some(s) => if s.alive_at(now) {
            (None, Ok(s))
        } else {
            (Some(s.id), Err(AppError::Authenticate(AuthenticateError::SessionExpired)))
        },
    }
}

/// Decides one login attempt at `now` on the account that the username resolved to
/// (`None` for an unknown username). The caller writes back the returned row, if any, and
/// opens a session for the returned id on success.
pub fn decide_login(user: Option<User>, password: &str, now: i64) -> (r: (Option<User>, Result<i32, AppError>))
    requires
        user matches Some(u) ==> u.wf(),
        valid_time(now as int),
    ensures
        r == login_decision(user, password@, now as int),
        r.0 matches Some(u) ==> u.wf(),
{
    match user {
        None => (None, Err(AppError::Authenticate(AuthenticateError::WrongCredentials))),
        Some(mut u) => match u.authenticate(password, now) {
            Err(AuthenticateError::Locked) => (None, Err(AppError::Authenticate(AuthenticateError::Locked))),
            Err(e) => (Some(u), Err(AppError::Authenticate(e))),
            Ok(()) => {
                let id = u.id;
                (Some(u), Ok(id))
            },
        },
    }
}

/// Decides on the session that the store holds for a user at `now` (`None` when it holds
/// none). The caller deletes the session whose id is returned, if any.
pub fn decide_session(session: Option<Session>, now: i64) -> (r: (Option<i32>, Result<Session, AppError>))
    ensures
        r == session_decision(session, now as int),
{
    match session {
        None => (None, Err(AppError::Store(StoreError::RecordNotFound))),
        Some(s) => if s.is_alive(now) {
            (None, Ok(s))
        } else {
            (Some(s.id), Err(AppError::Authenticate(AuthenticateError::SessionExpired)))
        },
    }
}

proof fn lemma_session_of_at(v: StoreView, user_id: i32, i: int)
    requires
        v.wf(),
        0 <= i < v.sessions.len(),
        v.sessions[i].user_id == user_id,
    ensures
        v.has_session_of(user_id),
        v.session_index_of(user_id) == i,
{
    assert(v.has_session_of(user_id));
    let k = v.session_index_of(user_id);
    if k < i {
        assert(v.sessions[k].user_id != v.sessions[i].user_id);
    } else if k > i {
        assert(v.sessions[i].user_id != v.sessions[k].user_id);
    }
}

proof fn lemma_session_id_at(v: StoreView, id: i32, i: int)
    requires
        v.wf(),
        0 <= i < v.sessions.len(),
        v.sessions[i].id == id,
    ensures
        v.has_session_id(id),
        v.session_id_index(id) == i,
{
    assert(v.has_session_id(id));
    let k = v.session_id_index(id);
    if k < i {
        assert(v.sessions[k].id != v.sessions[i].id);
    } else if k > i {
        assert(v.sessions[i].id != v.sessions[k].id);
    }
}

/// Removing a session keeps the store well formed, and leaves no session with its id or
/// its user.
proof fn lemma_remove_session(v: StoreView, i: int)
    requires
        v.wf(),
        0 <= i < v.sessions.len(),
    ensures
        (StoreView { sessions: v.sessions.remove(i), ..v }).wf(),
        !(StoreView { sessions: v.sessions.remove(i), ..v }).has_session_id(v.sessions[i].id),
        !(StoreView { sessions: v.sessions.remove(i), ..v }).has_session_of(v.sessions[i].user_id),
{
    let w = StoreView { sessions: v.sessions.remove(i), ..v };
    assert forall|k: int| 0 <= k < w.sessions.len() implies #[trigger] w.sessions[k] == (if k < i {
        v.sessions[k]
    } else {
        v.sessions[k + 1]
    }) by {}
    assert forall|a: int, b: int| 0 <= a < b < w.sessions.len() implies (#[trigger] w.sessions[a]).id
        != (#[trigger] w.sessions[b]).id && w.sessions[a].user_id != w.sessions[b].user_id by {
        let a0 = if a < i { a } else { a + 1 };
        let b0 = if b < i { b } else { b + 1 };
        assert(w.sessions[a] == v.sessions[a0]);
        assert(w.sessions[b] == v.sessions[b0]);
        assert(v.sessions[a0].id != v.sessions[b0].id);
    }
    assert forall|k: int| 0 <= k < w.sessions.len() implies (#[trigger] w.sessions[k]).id != v.sessions[i].id
        && w.sessions[k].user_id != v.sessions[i].user_id by {
        let k0 = if k < i { k } else { k + 1 };
        assert(w.sessions[k] == v.sessions[k0]);
    }
}

/// Removing a user keeps the store well formed and leaves no user with its id.
proof fn lemma_remove_user(v: StoreView, i: int)
    requires
        v.wf(),
        0 <= i < v.users.len(),
    ensures
        (StoreView { users: v.users.remove(i), ..v }).wf(),
        !(StoreView { users: v.users.remove(i), ..v }).has_user_id(v.users[i].id),
{
    let w = StoreView { users: v.users.remove(i), ..v };
    assert forall|k: int| 0 <= k < w.users.len() implies #[trigger] w.users[k] == (if k < i {
        v.users[k]
    } else {
        v.users[k + 1]
    }) by {}
    assert forall|a: int, b: int| 0 <= a < b < w.users.len() implies (#[trigger] w.users[a]).id
        != (#[trigger] w.users[b]).id && w.users[a].username@ != w.users[b].username@ by {
        let a0 = if a < i { a } else { a + 1 };
        let b0 = if b < i { b } else { b + 1 };
        assert(w.users[a] == v.users[a0]);
        assert(w.users[b] == v.users[b0]);
        assert(v.users[a0].id != v.users[b0].id);
    }
    assert forall|k: int| 0 <= k < w.users.len() implies (#[trigger] w.users[k]).id != v.users[i].id by {
        let k0 = if k < i { k } else { k + 1 };
        assert(w.users[k] == v.users[k0]);
    }
}

/// The only position of a user named `name`, given distinct usernames.
proof fn lemma_user_named_at(v: StoreView, name: Seq<char>, i: int)
    requires
        v.wf(),
        0 <= i < v.users.len(),
        v.users[i].username@ == name,
    ensures
        v.user_named(name) == Some(v.users[i]),
{
    assert(v.has_user_named(name));
    let k = choose|k: int| 0 <= k < v.users.len() && (#[trigger] v.users[k]).username@ == name;
    if k < i {
        assert(v.users[k].username@ != v.users[i].username@);
    } else if k > i {
        assert(v.users[i].username@ != v.users[k].username@);
    }
}

/// The only position of a user with id `id`, given distinct ids.
proof fn lemma_user_id_at(v: StoreView, id: i32, i: int)
    requires
        v.wf(),
        0 <= i < v.users.len(),
        v.users[i].id == id,
    ensures
        v.has_user_id(id),
        v.user_id_index(id) == i,
        v.user_with_id(id) == Some(v.users[i]),
{
    assert(v.has_user_id(id));
    let k = v.user_id_index(id);
    if k < i {
        assert(v.users[k].id != v.users[i].id);
    } else if k > i {
        assert(v.users[i].id != v.users[k].id);
    }
}

impl MemoryStore {
    /// An empty store.
    pub fn new() -> (r: MemoryStore)
        ensures
            r@.wf(),
            r@.users.len() == 0,
            r@.sessions.len() == 0,
            r@.next_user_id == 1,
            r@.next_session_id == 1,
    {
        MemoryStore { users: Vec::new(), sessions: Vec::new(), next_user_id: 1, next_session_id: 1 }
    }

    /// The position of the user named `name`.
    fn position_of_name(&self, name: &str) -> (r: Option<usize>)
        requires
            self@.wf(),
        ensures
            r matches Some(i) ==> i < self.users.len() && self@.user_named(name@) == Some(self.users@[i as int]),
            r is None ==> self@.user_named(name@) is None,
    {
        let wanted = name.to_owned();
        let mut i: usize = 0;
        while i < self.users.len()
            invariant
                0 <= i <= self.users.len(),
                wanted@ == name@,
                self@.wf(),
                forall|j: int| 0 <= j < i ==> (#[trigger] self.users@[j]).username@ != name@,
            decreases self.users.len() - i,
        {
            if self.users[i].username == wanted {
                proof {
                    lemma_user_named_at(self@, name@, i as int);
                }
                return Some(i);
            }
            i += 1;
        }
        None
    }

    /// The position of the user with id `id`.
    fn position_of_id(&self, id: i32) -> (r: Option<usize>)
        requires
            self@.wf(),
        ensures
            r matches Some(i) ==> i < self.users.len() && self.users@[i as int].id == id
                && self@.has_user_id(id) && self@.user_id_index(id) == i
                && self@.user_with_id(id) == Some(self.users@[i as int]),
            r is None ==> self@.user_with_id(id) is None,
    {
        let mut i: usize = 0;
        while i < self.users.len()
            invariant
                0 <= i <= self.users.len(),
                self@.wf(),
                forall|j: int| 0 <= j < i ==> (#[trigger] self.users@[j]).id != id,
            decreases self.users.len() - i,
        {
            if self.users[i].id == id {
                proof {
                    lemma_user_id_at(self@, id, i as int);
                }
                return Some(i);
            }
            i += 1;
        }
        None
    }

    /// Registers a user under `info.name`, with `info.password` as the stored credential,
    /// and the default lockout policy.
    pub fn add_user(&mut self, info: &CreateUser, now: i64) -> (r: Result<User, AppError>)
        requires
            old(self)@.wf(),
        ensures
            final(self)@.wf(),
            (final(self)@, r) == old(self)@.register(info.name, info.password, now as int),
    {
        if self.position_of_name(info.name.as_str()).is_some() {
            return Err(AppError::Store(StoreError::DuplicateKey));
        }
        if self.next_user_id == i32::MAX {
            return Err(AppError::Store(StoreError::IdsExhausted));
        }
        let user = User::new(self.next_user_id, info.name.clone(), info.password.clone(), now);
        let result = user.copy_record();
        self.users.push(user);
        self.next_user_id = self.next_user_id + 1;
        proof {
            assert(final(self)@.users == old(self)@.users.push(result));
        }
        Ok(result)
    }

    /// The user named `username`.
    pub fn from_username(&self, username: &str) -> (r: Result<User, AppError>)
        requires
            self@.wf(),
        ensures
            r == (match self@.user_named(username@) {
                Some(u) => Ok::<User, AppError>(u),
                None => Err(AppError::Store(StoreError::RecordNotFound)),
            }),
    {
        match self.position_of_name(username) {
            Some(i) => Ok(self.users[i].copy_record()),
            None => Err(AppError::Store(StoreError::RecordNotFound)),
        }
    }

    /// The user with id `id`.
    pub fn from_id(&self, id: i32) -> (r: Result<User, AppError>)
        requires
            self@.wf(),
        ensures
            r == (match self@.user_with_id(id) {
                Some(u) => Ok::<User, AppError>(u),
                None => Err(AppError::Store(StoreError::RecordNotFound)),
            }),
    {
        match self.position_of_id(id) {
            Some(i) => Ok(self.users[i].copy_record()),
            None => Err(AppError::Store(StoreError::RecordNotFound)),
        }
    }
    fn position_of_session_user(&self, user_id: i32) -> (r: Option<usize>)
        requires
            self@.wf(),
        ensures
            r matches Some(i) ==> i < self.sessions.len() && self@.has_session_of(user_id)
                && self@.session_index_of(user_id) == i,
            r is None ==> !self@.has_session_of(user_id),
    {
        let mut i: usize = 0;
        while i < self.sessions.len()
            invariant
                0 <= i <= self.sessions.len(),
                self@.wf(),
                forall|j: int| 0 <= j < i ==> (#[trigger] self.sessions@[j]).user_id != user_id,
            decreases self.sessions.len() - i,
        {
            if self.sessions[i].user_id == user_id {
                proof {
                    lemma_session_of_at(self@, user_id, i as int);
                }
                return Some(i);
            }
            i += 1;
        }
        None
    }

    fn position_of_session_id(&self, id: i32) -> (r: Option<usize>)
        requires
            self@.wf(),
        ensures
            r matches Some(i) ==> i < self.sessions.len() && self@.has_session_id(id)
                && self@.session_id_index(id) == i,
            r is None ==> !self@.has_session_id(id),
    {
        let mut i: usize = 0;
        while i < self.sessions.len()
            invariant
                0 <= i <= self.sessions.len(),
                self@.wf(),
                forall|j: int| 0 <= j < i ==> (#[trigger] self.sessions@[j]).id != id,
            decreases self.sessions.len() - i,
        {
            if self.sessions[i].id == id {
                proof {
                    lemma_session_id_at(self@, id, i as int);
                }
                return Some(i);
            }
            i += 1;
        }
        None
    }

    /// The session whose id is `id`.
    pub fn session_by_id(&self, id: i32) -> (r: Option<Session>)
        requires
            self@.wf(),
        ensures
            r == self@.session_with_id(id),
    {
        match self.position_of_session_id(id) {
            Some(i) => Some(self.sessions[i]),
            None => None,
        }
    }

    /// Removes the session whose id is `id`, if there is one.
    pub fn delete_session(&mut self, id: i32)
        requires
            old(self)@.wf(),
        ensures
            final(self)@ == old(self)@.without_session_id(id),
            final(self)@.wf(),
            final(self)@.session_with_id(id) is None,
    {
        match self.position_of_session_id(id) {
            Some(i) => {
                proof {
                    lemma_remove_session(self@, i as int);
                }
                self.sessions.remove(i);
            },
            None => {},
        }
    }

    /// Opens a session for the user `user_id` at `now`, lasting one day; it supersedes the
    /// user's previous session.
    pub fn open_session(&mut self, user_id: i32, now: i64) -> (r: Result<Session, AppError>)
        requires
            old(self)@.wf(),
            valid_time(now as int),
        ensures
            final(self)@.wf(),
            (final(self)@, r) == old(self)@.open_session(user_id, now as int),
    {
        if self.position_of_id(user_id).is_none() {
            return Err(AppError::Store(StoreError::RecordNotFound));
        }
        if self.next_session_id == i32::MAX {
            return Err(AppError::Store(StoreError::IdsExhausted));
        }
        match self.position_of_session_user(user_id) {
            Some(i) => {
                proof {
                    lemma_remove_session(self@, i as int);
                }
                self.sessions.remove(i);
            },
            None => {},
        }
        let ghost mid = self@;
        let session = Session::new(self.next_session_id, user_id, now);
        self.sessions.push(session);
        self.next_session_id = self.next_session_id + 1;
        proof {
            assert forall|k: int| 0 <= k < mid.sessions.len() implies (#[trigger] mid.sessions[k]).user_id != user_id
                by {}
            assert(self@.sessions == mid.sessions.push(session));
        }
        Ok(session)
    }

    /// The live session of the user `user_id` at `now`. An expired one is deleted and
    /// reported as expired.
    pub fn from_user_id(&mut self, user_id: i32, now: i64) -> (r: Result<Session, AppError>)
        requires
            old(self)@.wf(),
        ensures
            final(self)@.wf(),
            (final(self)@, r) == old(self)@.session_lookup(user_id, now as int),
    {
        let current = match self.position_of_session_user(user_id) {
            None => None,
            Some(i) => Some(self.sessions[i]),
        };
        let (delete, outcome) = decide_session(current, now);
        if let Some(id) = delete {
            self.delete_session(id);
        }
        outcome
    }

    /// Gives the user with id `id` a new password.
    pub fn update(&mut self, id: i32, password: String) -> (r: Result<(), AppError>)
        requires
            old(self)@.wf(),
        ensures
            final(self)@.wf(),
            final(self)@ == old(self)@.with_password(id, password),
            r is Ok <==> old(self)@.has_user_id(id),
            r matches Err(e) ==> e == AppError::not_found_spec(),
    {
        match self.position_of_id(id) {
            None => Err(AppError::not_found()),
            Some(i) => {
                let mut row = self.users[i].copy_record();
                row.pw_hash = password;
                let ghost before = self@;
                self.users.set(i, row);
                proof {
                    assert(row.id == before.users[i as int].id);
                    assert(row.username == before.users[i as int].username);
                    assert forall|k: int| 0 <= k < self.users@.len() implies (#[trigger] self.users@[k]).wf()
                        && 1 <= self.users@[k].id < self.next_user_id by {
                        assert(before.users[k].wf());
                    }
                    assert forall|a: int, b: int| 0 <= a < b < self.users@.len() implies (#[trigger] self.users@[a]).id
                        != (#[trigger] self.users@[b]).id && self.users@[a].username@ != self.users@[b].username@ by {
                        assert(before.users[a].id != before.users[b].id);
                    }
                    assert(1 <= self@.next_user_id);
                    assert(1 <= self@.next_session_id);
                    assert(self@.sessions == before.sessions);
                    assert(self@.wf());
                }
                Ok(())
            },
        }
    }

    /// Removes the user with id `id`, if there is one.
    pub fn delete(&mut self, id: i32)
        requires
            old(self)@.wf(),
        ensures
            final(self)@.wf(),
            final(self)@ == old(self)@.without_user_id(id),
            final(self)@.user_with_id(id) is None,
    {
        match self.position_of_id(id) {
            None => {},
            Some(i) => {
                proof {
                    lemma_remove_user(self@, i as int);
                }
                self.users.remove(i);
            },
        }
    }

    /// Writes the lockout state of `user` (its counter and its lock) to the row with its id.
    pub fn save_lockout_state(&mut self, user: &User) -> (r: Result<(), AppError>)
        requires
            old(self)@.wf(),
            user.wf(),
        ensures
            final(self)@.wf(),
            final(self)@ == old(self)@.with_lockout(*user),
            r is Ok <==> old(self)@.has_user_id(user.id),
            r matches Err(e) ==> e == AppError::Store(StoreError::RecordNotFound),
    {
        match self.position_of_id(user.id) {
            None => Err(AppError::Store(StoreError::RecordNotFound)),
            Some(i) => {
                let mut row = self.users[i].copy_record();
                row.invalid_login_attempts = user.invalid_login_attempts;
                row.locked_until = user.locked_until;
                self.users.set(i, row);
                Ok(())
            },
        }
    }

    /// Authenticates `info.username` with `info.password` at `now`: resolves the user,
    /// applies the lockout rules, writes the new lockout state and, on success, opens a
    /// session.
    pub fn authenticate(&mut self, info: &LoginInfo, now: i64) -> (r: Result<Session, AppError>)
        requires
            old(self)@.wf(),
            valid_time(now as int),
        ensures
            final(self)@.wf(),
            (final(self)@, r) == old(self)@.login(info.username@, info.password@, now as int),
    {
        let user = match self.position_of_name(info.username.as_str()) {
            None => None,
            Some(i) => Some(self.users[i].copy_record()),
        };
        let (write, outcome) = decide_login(user, info.password.as_str(), now);
        if let Some(u) = &write {
            let _ = self.save_lockout_state(u);
        }
        match outcome {
            Err(e) => Err(e),
            Ok(id) => self.open_session(id, now),
        }
    }

    /// Resolves a bearer token at `now`: its signature under `secret` and its time claims
    /// first, then the session that the store holds for its user, which has the last word.
    pub fn from_token(&mut self, token: &str, secret: &[u8], now: i64) -> (r: Result<Session, AppError>)
        requires
            old(self)@.wf(),
        ensures
            final(self)@.wf(),
            (final(self)@, r) == old(self)@.token_lookup(token_claims(verified_payload_of(token@, secret@), now as int), now as int),
            verified_payload_of(token@, secret@) is None ==> (final(self)@ == old(self)@
                && r == Err::<Session, AppError>(AppError::Authenticate(AuthenticateError::InvalidToken))),
            forall|c: Claims| #[trigger] c.signed_with(secret@) == token@ ==> (final(self)@, r) == (if c.current_at(now as int) {
                old(self)@.session_lookup(c.user_id, now as int)
            } else {
                (old(self)@, Err::<Session, AppError>(AppError::Authenticate(AuthenticateError::InvalidToken)))
            }),
    {
        match decode_claims(token, secret, now) {
            Err(e) => Err(AppError::Authenticate(e)),
            Ok(claims) => self.from_user_id(claims.user_id, now),
        }
    }
}

/// Round trip: a session opened at `opened_at` for an existing user, put in a token issued
/// at `issued_at`, and resolved at `now` before the session ends, gives back that session.
pub proof fn lemma_token_round_trip(v: StoreView, user_id: i32, opened_at: int, issued_at: int, now: int)
    requires
        v.wf(),
        valid_time(opened_at),
        v.has_user_id(user_id),
        v.next_session_id < i32::MAX,
        opened_at <= issued_at <= now < opened_at + SESSION_TTL_S,
    ensures
        v.open_session(user_id, opened_at).1 == Ok::<Session, AppError>(v.next_session(user_id, opened_at)),
        Claims::of_session(v.next_session(user_id, opened_at), issued_at).current_at(now),
        v.open_session(user_id, opened_at).0.session_lookup(user_id, now) == (
            v.open_session(user_id, opened_at).0,
            Ok::<Session, AppError>(v.next_session(user_id, opened_at)),
        ),
{
    let s = v.next_session(user_id, opened_at);
    let u = v.without_session_of(user_id);
    if v.has_session_of(user_id) {
        lemma_remove_session(v, v.session_index_of(user_id));
    }
    assert(u.wf());
    assert(!u.has_session_of(user_id));
    let w = v.opened(user_id, opened_at);
    assert(w.sessions.last() == s);
    assert(w.wf()) by {
        assert forall|k: int| 0 <= k < u.sessions.len() implies (#[trigger] u.sessions[k]).user_id != user_id by {}
    }
    lemma_session_of_at(w, user_id, w.sessions.len() - 1);
}

/// A token whose claims are current, for a user whose stored session has passed its
/// expiry, is refused as expired, and no session with that session's id is left.
pub proof fn lemma_expired_session_purged(v: StoreView, c: Claims, now: int)
    requires
        v.wf(),
        c.current_at(now),
        v.session_of(c.user_id) is Some,
        !v.session_of(c.user_id).unwrap().alive_at(now),
    ensures
        v.token_lookup(Ok(c), now).1 == Err::<Session, AppError>(AppError::Authenticate(AuthenticateError::SessionExpired)),
        v.token_lookup(Ok(c), now).0.session_with_id(v.session_of(c.user_id).unwrap().id) is None,
        v.token_lookup(Ok(c), now).0.wf(),
{
    let i = v.session_index_of(c.user_id);
    let s = v.sessions[i];
    lemma_session_id_at(v, s.id, i);
    lemma_remove_session(v, i);
}

/// Writing back the lockout state of the account named `name` keeps the store well formed,
/// and the account then reads back as written.
proof fn lemma_with_lockout_named(v: StoreView, name: Seq<char>, u2: User)
    requires
        v.wf(),
        v.has_user_named(name),
        u2.wf(),
        u2 == (User {
            invalid_login_attempts: u2.invalid_login_attempts,
            locked_until: u2.locked_until,
            ..v.user_named(name).unwrap()
        }),
    ensures
        v.with_lockout(u2).wf(),
        v.with_lockout(u2).user_named(name) == Some(u2),
        v.with_lockout(u2).sessions == v.sessions,
        v.with_lockout(u2).next_session_id == v.next_session_id,
        v.with_lockout(u2).has_user_id(u2.id),
{
    let i = choose|i: int| 0 <= i < v.users.len() && (#[trigger] v.users[i]).username@ == name;
    let u = v.users[i];
    lemma_user_id_at(v, u.id, i);
    let w = v.with_lockout(u2);
    assert(w.users == v.users.update(i, u2));
    assert forall|k: int| 0 <= k < w.users.len() implies (#[trigger] w.users[k]).wf() && 1 <= w.users[k].id
        < w.next_user_id by {
        assert(v.users[k].wf());
    }
    assert forall|a: int, b: int| 0 <= a < b < w.users.len() implies (#[trigger] w.users[a]).id
        != (#[trigger] w.users[b]).id && w.users[a].username@ != w.users[b].username@ by {
        assert(v.users[a].id != v.users[b].id);
    }
    assert(w.wf());
    lemma_user_named_at(w, name, i);
    lemma_user_id_at(w, u2.id, i);
}

/// Opening a session changes no account.
proof fn lemma_open_session_keeps_users(v: StoreView, user_id: i32, now: int, name: Seq<char>)
    ensures
        v.open_session(user_id, now).0.user_named(name) == v.user_named(name),
{
    assert(v.open_session(user_id, now).0.users == v.users);
}

/// In the store: a wrong password for an unlocked account with fewer than two failed
/// attempts is refused as wrong credentials, and the stored account then has exactly one
/// more failed attempt and no lock.
pub proof fn lemma_store_wrong_password_counts_once(v: StoreView, name: Seq<char>, password: Seq<char>, now: int)
    requires
        v.wf(),
        valid_time(now),
        v.user_named(name) is Some,
        v.user_named(name).unwrap().invalid_login_attempts < 2,
        v.user_named(name).unwrap().locked_until is None,
        v.user_named(name).unwrap().pw_hash@ != password,
    ensures
        v.login(name, password, now).1 == Err::<Session, AppError>(AppError::Authenticate(AuthenticateError::WrongCredentials)),
        v.login(name, password, now).0.wf(),
        v.login(name, password, now).0.user_named(name) is Some,
        v.login(name, password, now).0.user_named(name).unwrap().invalid_login_attempts
            == v.user_named(name).unwrap().invalid_login_attempts + 1,
        v.login(name, password, now).0.user_named(name).unwrap().locked_until is None,
{
    let u = v.user_named(name).unwrap();
    lemma_login_keeps_wf(u, password, now);
    lemma_with_lockout_named(v, name, u.login(password, now).0);
}

/// In the store: the third consecutive failure stores a lock until `now` plus the lock
/// duration (120 seconds under the default policy); until then every attempt, with any
/// password, is refused as locked and the store is left as it is.
pub proof fn lemma_store_third_failure_locks(
    v: StoreView,
    name: Seq<char>,
    wrong: Seq<char>,
    now: int,
    later: Seq<char>,
    then: int,
)
    requires
        v.wf(),
        valid_time(now),
        v.user_named(name) is Some,
        v.user_named(name).unwrap().invalid_login_attempts == 2,
        v.user_named(name).unwrap().locked_until is None,
        v.user_named(name).unwrap().pw_hash@ != wrong,
        now <= then < now + v.user_named(name).unwrap().spec_lock_duration(),
    ensures
        v.login(name, wrong, now).1 == Err::<Session, AppError>(AppError::Authenticate(AuthenticateError::WrongCredentials)),
        v.login(name, wrong, now).0.user_named(name) is Some,
        v.login(name, wrong, now).0.user_named(name).unwrap().invalid_login_attempts == LOCK_THRESHOLD,
        v.login(name, wrong, now).0.user_named(name).unwrap().locked_until == Some(
            (now + v.user_named(name).unwrap().spec_lock_duration()) as i64,
        ),
        v.login(name, wrong, now).0.login(name, later, then) == (
            v.login(name, wrong, now).0,
            Err::<Session, AppError>(AppError::Authenticate(AuthenticateError::Locked)),
        ),
{
    let u = v.user_named(name).unwrap();
    lemma_login_keeps_wf(u, wrong, now);
    crate::user::lemma_third_failure_locks(u, wrong, now, later, then);
    lemma_with_lockout_named(v, name, u.login(wrong, now).0);
}

/// In the store: a login that succeeds leaves the stored counter of that account at zero,
/// whatever it was.
pub proof fn lemma_store_success_resets(v: StoreView, name: Seq<char>, password: Seq<char>, now: int)
    requires
        v.wf(),
        valid_time(now),
    ensures
        v.login(name, password, now).1 is Ok ==> (v.login(name, password, now).0.user_named(name) is Some
            && v.login(name, password, now).0.user_named(name).unwrap().invalid_login_attempts == 0),
{
    if v.user_named(name) is Some {
        let u = v.user_named(name).unwrap();
        let u2 = u.login(password, now).0;
        lemma_login_keeps_wf(u, password, now);
        if u.login(password, now).1 is Ok {
            lemma_with_lockout_named(v, name, u2);
            lemma_open_session_keeps_users(v.with_lockout(u2), u2.id, now, name);
        }
    }
}

} // verus!

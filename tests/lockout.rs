use finance_fusion::{
    AppError, AuthenticateError, CreateUser, LoginInfo, MemoryStore, UnlockOutcome, User, SESSION_TTL_S,
};

const NOW: i64 = 1_700_000_000;

fn user_with_attempts(attempts: i32) -> User {
    let mut u = User::new(1, "alice".to_string(), "secret".to_string(), NOW);
    u.invalid_login_attempts = attempts;
    u
}

fn login(store: &mut MemoryStore, name: &str, password: &str, now: i64) -> Result<finance_fusion::Session, AppError> {
    let info = LoginInfo { username: name.to_string(), password: password.to_string() };
    store.authenticate(&info, now)
}

fn store_with(name: &str, password: &str) -> MemoryStore {
    let mut store = MemoryStore::new();
    let info = CreateUser { name: name.to_string(), password: password.to_string() };
    store.add_user(&info, NOW).unwrap();
    store
}

#[test]
fn wrong_password_counts_once_without_lock() {
    for attempts in 0..2 {
        let mut u = user_with_attempts(attempts);
        assert_eq!(u.authenticate("wrong", NOW), Err(AuthenticateError::WrongCredentials));
        assert_eq!(u.invalid_login_attempts, attempts + 1);
        assert_eq!(u.locked_until, None);
    }
}

#[test]
fn third_failure_locks_for_two_minutes() {
    let mut u = user_with_attempts(2);
    assert_eq!(u.authenticate("wrong", NOW), Err(AuthenticateError::WrongCredentials));
    assert_eq!(u.invalid_login_attempts, 3);
    assert_eq!(u.locked_until, Some(NOW + 120));
    assert!(u.is_locked());
}

#[test]
fn attempt_while_locked_is_rejected_and_not_counted() {
    let mut u = user_with_attempts(2);
    u.authenticate("wrong", NOW).unwrap_err();
    assert_eq!(u.authenticate("wrong", NOW + 10), Err(AuthenticateError::Locked));
    assert_eq!(u.invalid_login_attempts, 3);
    assert_eq!(u.authenticate("secret", NOW + 119), Err(AuthenticateError::Locked));
    assert_eq!(u.invalid_login_attempts, 3);
    assert_eq!(u.locked_until, Some(NOW + 120));
}

#[test]
fn success_resets_counter() {
    for attempts in 0..3 {
        let mut u = user_with_attempts(attempts);
        assert_eq!(u.authenticate("secret", NOW), Ok(()));
        assert_eq!(u.invalid_login_attempts, 0);
    }
}

#[test]
fn expired_lock_is_lifted_then_password_checked() {
    let mut u = user_with_attempts(2);
    u.authenticate("wrong", NOW).unwrap_err();
    assert_eq!(u.authenticate("secret", NOW + 120), Ok(()));
    assert_eq!(u.locked_until, None);
    assert_eq!(u.invalid_login_attempts, 0);
}

#[test]
fn wrong_password_after_expired_lock_starts_over() {
    let mut u = user_with_attempts(2);
    u.authenticate("wrong", NOW).unwrap_err();
    assert_eq!(u.authenticate("wrong", NOW + 500), Err(AuthenticateError::WrongCredentials));
    assert_eq!(u.invalid_login_attempts, 1);
    assert_eq!(u.locked_until, None);
}

#[test]
fn unlock_semantics() {
    let mut u = user_with_attempts(3);
    u.locked_until = Some(NOW + 50);
    assert_eq!(u.unlock(NOW), UnlockOutcome::StillLocked);
    assert_eq!(u.locked_until, Some(NOW + 50));
    assert_eq!(u.unlock(NOW + 50), UnlockOutcome::Unlocked);
    assert_eq!(u.locked_until, None);
    assert_eq!(u.invalid_login_attempts, 0);
    assert_eq!(u.unlock(NOW), UnlockOutcome::StillLocked);
}

#[test]
fn lock_duration_is_capped() {
    let mut u = user_with_attempts(0);
    assert_eq!(u.lock_duration(), 120);
    u.lock_duration_s = 1000;
    u.lock_duration_factor = 10;
    assert_eq!(u.lock_duration(), 3600);
    u.lock_duration_cap_s = 0;
    assert_eq!(u.lock_duration(), 0);
}

#[test]
fn increment_and_reset_directly() {
    let mut u = user_with_attempts(0);
    u.increment_invalid_login_attempts(NOW);
    u.increment_invalid_login_attempts(NOW);
    assert_eq!(u.locked_until, None);
    u.increment_invalid_login_attempts(NOW);
    assert_eq!(u.locked_until, Some(NOW + 120));
    u.reset_invalid_login_attempts();
    assert_eq!(u.invalid_login_attempts, 0);
}

#[test]
fn well_formedness_check() {
    let mut u = user_with_attempts(0);
    assert!(u.is_well_formed());
    u.invalid_login_attempts = 3;
    assert!(!u.is_well_formed());
    u.locked_until = Some(NOW);
    assert!(u.is_well_formed());
    u.lock_duration_cap_s = -1;
    assert!(!u.is_well_formed());
}

#[test]
fn check_password_compares_exactly() {
    let u = user_with_attempts(0);
    assert!(u.check_password("secret"));
    assert!(!u.check_password("Secret"));
    assert!(!u.check_password(""));
}

#[test]
fn alice_locked_after_three_failures() {
    let mut store = store_with("alice", "right");
    for _ in 0..3 {
        assert_eq!(
            login(&mut store, "alice", "wrong", NOW).unwrap_err(),
            AppError::Authenticate(AuthenticateError::WrongCredentials)
        );
    }
    assert_eq!(
        login(&mut store, "alice", "right", NOW + 1).unwrap_err(),
        AppError::Authenticate(AuthenticateError::Locked)
    );
    let alice = store.from_username("alice").unwrap();
    assert_eq!(alice.invalid_login_attempts, 3);
    assert_eq!(alice.locked_until, Some(NOW + 120));
}

#[test]
fn bob_first_login_gets_one_day_session() {
    let mut store = store_with("bob", "hunter2");
    let session = login(&mut store, "bob", "hunter2", NOW).unwrap();
    assert_eq!(session.expires_at(), session.created_at() + 24 * 60 * 60);
    assert_eq!(SESSION_TTL_S, 86400);
    assert_eq!(session.created_at, NOW);
    let bob = store.from_username("bob").unwrap();
    assert_eq!(session.user_id(), bob.id);
}

#[test]
fn unknown_user_is_wrong_credentials() {
    let mut store = store_with("bob", "hunter2");
    assert_eq!(
        login(&mut store, "mallory", "hunter2", NOW).unwrap_err(),
        AppError::Authenticate(AuthenticateError::WrongCredentials)
    );
}

#[test]
fn store_login_after_lock_expiry_succeeds() {
    let mut store = store_with("frank", "pw");
    for _ in 0..3 {
        login(&mut store, "frank", "bad", NOW).unwrap_err();
    }
    let session = login(&mut store, "frank", "pw", NOW + 120).unwrap();
    assert_eq!(session.created_at, NOW + 120);
    let frank = store.from_username("frank").unwrap();
    assert_eq!(frank.invalid_login_attempts, 0);
    assert_eq!(frank.locked_until, None);
}

#[test]
fn decide_login_outcomes() {
    let (write, outcome) = finance_fusion::store::decide_login(None, "x", NOW);
    assert!(write.is_none());
    assert_eq!(outcome, Err(AppError::Authenticate(AuthenticateError::WrongCredentials)));

    let (write, outcome) = finance_fusion::store::decide_login(Some(user_with_attempts(1)), "wrong", NOW);
    assert_eq!(write.unwrap().invalid_login_attempts, 2);
    assert_eq!(outcome, Err(AppError::Authenticate(AuthenticateError::WrongCredentials)));

    let mut locked = user_with_attempts(3);
    locked.locked_until = Some(NOW + 10);
    let (write, outcome) = finance_fusion::store::decide_login(Some(locked), "secret", NOW);
    assert!(write.is_none());
    assert_eq!(outcome, Err(AppError::Authenticate(AuthenticateError::Locked)));

    let (write, outcome) = finance_fusion::store::decide_login(Some(user_with_attempts(2)), "secret", NOW);
    assert_eq!(write.unwrap().invalid_login_attempts, 0);
    assert_eq!(outcome, Ok(1));
}

#[test]
fn fresh_store_starts_ids_at_one() {
    let store = MemoryStore::new();
    assert_eq!(store.next_user_id, 1);
    assert_eq!(store.next_session_id, 1);
    assert!(store.users.is_empty());
    assert!(store.sessions.is_empty());
}

use finance_fusion::{AppError, CreateUser, MemoryStore, StoreError};

const NOW: i64 = 1_700_000_000;

fn create(store: &mut MemoryStore, name: &str, password: &str) -> finance_fusion::User {
    let info = CreateUser { name: name.to_string(), password: password.to_string() };
    store.add_user(&info, NOW).unwrap()
}

#[test]
fn test_new_user() {
    let mut store = MemoryStore::new();
    let username = "test_user";
    let password = "test_password";

    let user = create(&mut store, username, password);
    assert_eq!(user.username, username);

    let found_user = store.from_id(user.id).unwrap();
    assert_eq!(found_user.username, username);
    assert!(!found_user.is_dev_mode);
    assert_eq!(found_user.invalid_login_attempts, 0);
    assert_eq!(found_user.lock_duration_s, 60);
    assert_eq!(found_user.lock_duration_factor, 2);
    assert_eq!(found_user.lock_duration_cap_s, 3600);
    assert_eq!(found_user.locked_until, None);

    store.delete(user.id);
    assert!(store.from_id(user.id).is_err());
}

#[test]
fn test_from_id() {
    let mut store = MemoryStore::new();
    let username = "test_user";
    let password = "test_password";

    let user = create(&mut store, username, password);
    let found_user = store.from_id(user.id).unwrap();
    assert_eq!(found_user.username, username);
}

#[test]
fn test_from_username() {
    let mut store = MemoryStore::new();
    let username = "test_user";
    let password = "test_password";

    let user = create(&mut store, username, password);
    assert_eq!(user.username, username);
    let found_user = store.from_username(username).unwrap();
    assert_eq!(found_user.id, user.id);
}

#[test]
fn test_delete_user() {
    let mut store = MemoryStore::new();
    let username = "test_user";
    let password = "test_password";

    let user = create(&mut store, username, password);
    store.delete(user.id);
    let result = store.from_username(username);
    assert!(result.is_err());
}

#[test]
fn duplicate_username_is_refused() {
    let mut store = MemoryStore::new();
    create(&mut store, "carol", "pw");
    let info = CreateUser { name: "carol".to_string(), password: "other".to_string() };
    assert_eq!(store.add_user(&info, NOW).unwrap_err(), AppError::Store(StoreError::DuplicateKey));
}

#[test]
fn ids_are_distinct_and_increasing() {
    let mut store = MemoryStore::new();
    let a = create(&mut store, "a", "pw");
    let b = create(&mut store, "b", "pw");
    assert_eq!(a.id, 1);
    assert_eq!(b.id, 2);
    assert_eq!(a.created_at, NOW);
}

#[test]
fn update_changes_password() {
    let mut store = MemoryStore::new();
    let user = create(&mut store, "dave", "old");
    store.update(user.id, "new".to_string()).unwrap();
    assert_eq!(store.from_id(user.id).unwrap().pw_hash, "new");
    assert_eq!(store.update(99, "x".to_string()).unwrap_err(), AppError::not_found());
}

#[test]
fn missing_user_lookups_fail() {
    let store = MemoryStore::new();
    assert_eq!(store.from_id(7).unwrap_err(), AppError::Store(StoreError::RecordNotFound));
    assert_eq!(store.from_username("nobody").unwrap_err(), AppError::Store(StoreError::RecordNotFound));
}

#[test]
fn public_view_hides_secrets() {
    let mut store = MemoryStore::new();
    let user = create(&mut store, "erin", "pw");
    let public = user.to_public();
    assert_eq!(public.id, user.id);
    assert_eq!(public.username, "erin");
    assert_eq!(public.created_at, NOW);
    assert!(!public.is_dev_mode);
}

use finance_fusion::cookie::token_from_cookie_header;
use finance_fusion::token::{claims_from_entries, decode_claims};
use finance_fusion::{
    AppError, AuthenticateError, BadRequest, Claims, CreateUser, MemoryStore, NotFound, Session, StoreError,
};

const NOW: i64 = 1_700_000_000;
const SECRET: &[u8] = b"test-signing-key";

fn store_with_user() -> (MemoryStore, i32) {
    let mut store = MemoryStore::new();
    let info = CreateUser { name: "test_user".to_string(), password: "test_password".to_string() };
    let user = store.add_user(&info, NOW).unwrap();
    (store, user.id())
}

#[test]
fn test_new_session() {
    let (mut store, user_id) = store_with_user();
    let session = store.open_session(user_id, NOW).unwrap();
    assert_eq!(session.user_id, user_id);

    let found_session = store.session_by_id(session.id).unwrap();
    assert_eq!(found_session.user_id, user_id);
    assert!(NOW < found_session.expires_at);
}

#[test]
fn test_from_token() {
    let (mut store, user_id) = store_with_user();
    let session = store.open_session(user_id, NOW).unwrap();
    let token = session.token(SECRET, NOW).unwrap();
    let decoded_session = store.from_token(&token, SECRET, NOW).unwrap();
    assert_eq!(decoded_session.user_id, user_id);
}

#[test]
fn round_trip_later_but_before_expiry() {
    let (mut store, user_id) = store_with_user();
    let session = store.open_session(user_id, NOW).unwrap();
    let token = session.token(SECRET, NOW + 60).unwrap();
    let decoded = store.from_token(&token, SECRET, NOW + 86399).unwrap();
    assert_eq!(decoded, session);
}

#[test]
fn token_has_three_parts_and_differs_from_claims() {
    let session = Session::new(5, 9, NOW);
    let token = session.token(SECRET, NOW).unwrap();
    assert_eq!(token.split('.').count(), 3);
    assert!(token.starts_with("eyJ"));
    let claims = decode_claims(&token, SECRET, NOW).unwrap();
    assert_eq!(claims, Claims { user_id: 9, exp: NOW + 86400, iat: NOW, nbf: NOW });
}

#[test]
fn expired_store_session_is_purged() {
    let (mut store, user_id) = store_with_user();
    let session = store.open_session(user_id, NOW).unwrap();
    // A token whose own claims are still current, for a session the store holds as ended.
    let claims_session = Session { id: session.id, user_id, expires_at: NOW + 10 * 86400, created_at: NOW };
    let token = claims_session.token(SECRET, NOW + 86400).unwrap();
    assert_eq!(
        store.from_token(&token, SECRET, NOW + 86400).unwrap_err(),
        AppError::Authenticate(AuthenticateError::SessionExpired)
    );
    assert_eq!(store.session_by_id(session.id), None);
    assert_eq!(
        store.from_token(&token, SECRET, NOW + 86401).unwrap_err(),
        AppError::Store(StoreError::RecordNotFound)
    );
}

#[test]
fn from_user_id_purges_expired_session() {
    let (mut store, user_id) = store_with_user();
    let session = store.open_session(user_id, NOW).unwrap();
    assert_eq!(store.from_user_id(user_id, NOW + 86399).unwrap(), session);
    assert_eq!(
        store.from_user_id(user_id, NOW + 86400).unwrap_err(),
        AppError::Authenticate(AuthenticateError::SessionExpired)
    );
    assert_eq!(store.session_by_id(session.id), None);
}

#[test]
fn token_past_its_expiry_is_invalid() {
    let (mut store, user_id) = store_with_user();
    let session = store.open_session(user_id, NOW).unwrap();
    let token = session.token(SECRET, NOW).unwrap();
    assert_eq!(
        store.from_token(&token, SECRET, NOW + 86400).unwrap_err(),
        AppError::Authenticate(AuthenticateError::InvalidToken)
    );
}

#[test]
fn token_before_not_before_is_invalid() {
    let session = Session::new(1, 1, NOW);
    let token = session.token(SECRET, NOW + 100).unwrap();
    assert_eq!(decode_claims(&token, SECRET, NOW + 99), Err(AuthenticateError::InvalidToken));
    assert!(decode_claims(&token, SECRET, NOW + 100).is_ok());
}

#[test]
fn tampered_signature_is_invalid() {
    let (mut store, user_id) = store_with_user();
    let session = store.open_session(user_id, NOW).unwrap();
    let token = session.token(SECRET, NOW).unwrap();
    let mut bytes = token.into_bytes();
    let last = bytes.len() - 1;
    bytes[last] = if bytes[last] == b'A' { b'B' } else { b'A' };
    let tampered = String::from_utf8(bytes).unwrap();
    assert_eq!(
        store.from_token(&tampered, SECRET, NOW).unwrap_err(),
        AppError::Authenticate(AuthenticateError::InvalidToken)
    );
}

#[test]
fn other_secret_is_invalid() {
    let session = Session::new(1, 1, NOW);
    let token = session.token(SECRET, NOW).unwrap();
    assert_eq!(decode_claims(&token, b"another-key", NOW), Err(AuthenticateError::InvalidToken));
}

#[test]
fn malformed_token_is_invalid() {
    assert_eq!(decode_claims("not a token", SECRET, NOW), Err(AuthenticateError::InvalidToken));
    assert_eq!(decode_claims("", SECRET, NOW), Err(AuthenticateError::InvalidToken));
}

#[test]
fn new_session_supersedes_previous() {
    let (mut store, user_id) = store_with_user();
    let first = store.open_session(user_id, NOW).unwrap();
    let second = store.open_session(user_id, NOW + 5).unwrap();
    assert_ne!(first.id, second.id);
    assert_eq!(store.session_by_id(first.id), None);
    assert_eq!(store.from_user_id(user_id, NOW + 6).unwrap(), second);
}

#[test]
fn session_for_unknown_user_is_refused() {
    let mut store = MemoryStore::new();
    assert_eq!(store.open_session(42, NOW).unwrap_err(), AppError::Store(StoreError::RecordNotFound));
}

#[test]
fn delete_session_removes_it() {
    let (mut store, user_id) = store_with_user();
    let session = store.open_session(user_id, NOW).unwrap();
    store.delete_session(session.id);
    assert_eq!(store.session_by_id(session.id), None);
}

#[test]
fn claims_from_entries_needs_all_keys() {
    let entries = vec![
        ("exp".to_string(), 10i64),
        ("iat".to_string(), 1),
        ("nbf".to_string(), 2),
        ("user_id".to_string(), 7),
    ];
    assert_eq!(claims_from_entries(&entries), Some(Claims { user_id: 7, exp: 10, iat: 1, nbf: 2 }));
    let missing = vec![("exp".to_string(), 10i64), ("user_id".to_string(), 7)];
    assert_eq!(claims_from_entries(&missing), None);
    let too_big = vec![
        ("exp".to_string(), 10i64),
        ("iat".to_string(), 1),
        ("nbf".to_string(), 2),
        ("user_id".to_string(), i64::from(i32::MAX) + 1),
    ];
    assert_eq!(claims_from_entries(&too_big), None);
}

#[test]
fn claims_of_session() {
    let session = Session::new(3, 4, NOW);
    assert_eq!(Claims::from(&session, NOW + 7), Claims { user_id: 4, exp: NOW + 86400, iat: NOW + 7, nbf: NOW + 7 });
}

#[test]
fn cookie_token_extraction() {
    assert_eq!(token_from_cookie_header(b"token=abc"), Some(b"abc".to_vec()));
    assert_eq!(token_from_cookie_header(b"a=1; token=abc.def; b=2"), Some(b"abc.def".to_vec()));
    assert_eq!(token_from_cookie_header(b"mytoken=x; token=y"), Some(b"y".to_vec()));
    assert_eq!(token_from_cookie_header(b"token=; token=z"), Some(Vec::new()));
    assert_eq!(token_from_cookie_header(b"a=1;token=x"), None);
    assert_eq!(token_from_cookie_header(b""), None);
}

#[test]
fn error_codes() {
    assert_eq!(AppError::bad_request().get_codes(), (400, 40002));
    assert_eq!(AppError::BadRequest(BadRequest {}), AppError::bad_request());
    assert_eq!(AppError::NotFound(NotFound {}).get_codes(), (404, 40003));
    assert_eq!(AppError::Authenticate(AuthenticateError::WrongCredentials).get_codes(), (401, 40004));
    assert_eq!(AppError::Authenticate(AuthenticateError::InvalidToken).get_codes(), (401, 40005));
    assert_eq!(AppError::Authenticate(AuthenticateError::Locked).get_codes(), (423, 40006));
    assert_eq!(AppError::Authenticate(AuthenticateError::SessionExpired).get_codes(), (401, 40007));
    assert_eq!(AppError::Authenticate(AuthenticateError::TokenCreation).get_codes(), (500, 5001));
    assert_eq!(AppError::Store(StoreError::Backend("db down".to_string())).get_codes(), (500, 5002));
    assert_eq!(AppError::Unknown.get_codes(), (500, 5000));
    assert_eq!(AppError::Store(StoreError::Backend("db down".to_string())).message(), "Internal storage error");
}

#[test]
fn decide_session_outcomes() {
    assert_eq!(finance_fusion::store::decide_session(None, NOW), (None, Err(AppError::Store(StoreError::RecordNotFound))));
    let s = Session::new(4, 2, NOW);
    assert_eq!(finance_fusion::store::decide_session(Some(s), NOW + 86399), (None, Ok(s)));
    assert_eq!(
        finance_fusion::store::decide_session(Some(s), NOW + 86400),
        (Some(4), Err(AppError::Authenticate(AuthenticateError::SessionExpired)))
    );
}

#[test]
fn login_token_resolves_to_session() {
    let (mut store, user_id) = store_with_user();
    let info = finance_fusion::LoginInfo { username: "test_user".to_string(), password: "test_password".to_string() };
    let session = store.authenticate(&info, NOW).unwrap();
    let token = session.token(SECRET, NOW).unwrap();
    let resolved = store.from_token(&token, SECRET, NOW + 1).unwrap();
    assert_eq!(resolved.user_id, user_id);
    assert_eq!(resolved, session);
}

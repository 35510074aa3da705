use kominer::session::{
    check_session_request, is_valid_user_id, keeps_entry_at_startup, open_session,
    validate_session, validate_session_at, AuthMode, DavSession, PrivateAuth, SessionRequest,
    SessionStore,
};
use kominer::{SESSION_LIFETIME_NANOS, SESSION_LIMIT};

fn account(user: &str, password: &str) -> PrivateAuth {
    PrivateAuth { user: user.to_string(), password: password.to_string() }
}

fn session(id: &str, password: &str, expires_at: i128) -> DavSession {
    DavSession { id: id.to_string(), password: password.to_string(), expires_at }
}

fn request(id: &str, password: &str) -> SessionRequest {
    SessionRequest { id: id.to_string(), password: password.to_string() }
}

const ID_A: &str = "1234567890123456";
const ID_B: &str = "0000000000000001";

#[test]
fn user_ids_are_sixteen_ascii_digits() {
    assert!(is_valid_user_id(ID_A));
    assert!(is_valid_user_id(ID_B));
    assert!(!is_valid_user_id("123456789012345"));
    assert!(!is_valid_user_id("12345678901234567"));
    assert!(!is_valid_user_id("12345678901234a6"));
    assert!(!is_valid_user_id(""));
    assert!(!is_valid_user_id(" 234567890123456"));
    // sixteen characters, but not ASCII digits
    assert!(!is_valid_user_id("١٢٣٤٥٦٧٨٩٠١٢٣٤٥٦"));
    // eight two-byte characters are sixteen bytes, none of them a digit
    assert!(!is_valid_user_id("éééééééé"));
}

#[test]
fn store_inserts_replaces_and_finds() {
    let mut store = SessionStore::new();
    assert_eq!(store.len(), 0);
    assert!(store.get(ID_A).is_none());
    store.insert(session(ID_A, "pw", 10));
    store.insert(session(ID_B, "other", 20));
    assert_eq!(store.len(), 2);
    assert!(store.contains(ID_A));
    store.insert(session(ID_A, "new", 30));
    assert_eq!(store.len(), 2);
    let s = store.get(ID_A).unwrap();
    assert_eq!(s.password, "new");
    assert_eq!(s.expires_at, 30);
    assert_eq!(store.get(ID_B).unwrap().password, "other");
    assert!(!store.contains("9999999999999999"));
}

#[test]
fn purge_closes_expired_sessions_only() {
    let mut store = SessionStore::new();
    store.insert(session(ID_A, "a", 100));
    store.insert(session(ID_B, "b", 200));
    store.insert(session("2222222222222222", "c", 150));
    let mut removed = store.purge_expired_at(150);
    removed.sort();
    assert_eq!(removed, vec![ID_A.to_string(), "2222222222222222".to_string()]);
    assert_eq!(store.len(), 1);
    assert!(store.contains(ID_B));
    assert!(store.purge_expired_at(150).is_empty());
    assert_eq!(store.purge_expired_at(1000), vec![ID_B.to_string()]);
    assert_eq!(store.len(), 0);
}

#[test]
fn purge_by_the_clock_keeps_future_sessions() {
    let mut store = SessionStore::new();
    store.insert(session(ID_A, "a", 0));
    store.insert(session(ID_B, "b", i128::MAX));
    assert_eq!(store.purge_expired(), vec![ID_A.to_string()]);
    assert!(store.contains(ID_B));
}

#[test]
fn private_mode_admits_only_the_account() {
    let auth = AuthMode::Private(account("me", "secret"));
    let mut store = SessionStore::new();
    store.insert(session("me", "other", 0));
    assert!(validate_session_at(&auth, &store, "me", "secret", 0));
    assert!(validate_session_at(&auth, &store, "me", "secret", i128::MAX));
    assert!(!validate_session_at(&auth, &store, "me", "other", 0));
    assert!(!validate_session_at(&auth, &store, "you", "secret", 0));
    assert!(validate_session(&auth, &store, "me", "secret"));
}

#[test]
fn public_mode_admits_open_sessions_until_they_expire() {
    let auth = AuthMode::Public(None);
    let mut store = SessionStore::new();
    store.insert(session(ID_A, "pw", 1000));
    assert!(validate_session_at(&auth, &store, ID_A, "pw", 999));
    assert!(!validate_session_at(&auth, &store, ID_A, "pw", 1000));
    assert!(!validate_session_at(&auth, &store, ID_A, "wrong", 999));
    assert!(!validate_session_at(&auth, &store, ID_B, "pw", 0));
}

#[test]
fn public_mode_admits_the_account_without_a_session() {
    let auth = AuthMode::Public(Some(account("admin", "root")));
    let mut store = SessionStore::new();
    assert!(validate_session_at(&auth, &store, "admin", "root", 5));
    assert!(!validate_session_at(&auth, &store, "admin", "nope", 5));
    // a session under the account's name shadows the account
    store.insert(session("admin", "other", 10));
    assert!(!validate_session_at(&auth, &store, "admin", "root", 5));
    assert!(validate_session_at(&auth, &store, "admin", "other", 5));
}

#[test]
fn session_requests_in_private_mode() {
    let auth = AuthMode::Private(account("me", "secret"));
    let store = SessionStore::new();
    assert!(check_session_request(&auth, &store, &request("me", "secret")).is_ok());
    let e = check_session_request(&auth, &store, &request("me", "bad")).unwrap_err();
    assert_eq!(e.status, 401);
    assert_eq!(e.message, "invalid username or password");
}

#[test]
fn session_request_needs_a_sixteen_digit_id() {
    let auth = AuthMode::Public(None);
    let store = SessionStore::new();
    let e = check_session_request(&auth, &store, &request("abc", "pw")).unwrap_err();
    assert_eq!(e.status, 400);
    assert_eq!(e.message, "user_id must be 16 digits");
}

#[test]
fn session_request_for_a_taken_id_needs_its_password() {
    let auth = AuthMode::Public(None);
    let mut store = SessionStore::new();
    store.insert(session(ID_A, "pw", 0));
    let e = check_session_request(&auth, &store, &request(ID_A, "other")).unwrap_err();
    assert_eq!(e.status, 401);
    assert_eq!(e.message, "password doesn't match active session");
    // the right password renews it, even after expiry
    assert!(check_session_request(&auth, &store, &request(ID_A, "pw")).is_ok());
}

#[test]
fn free_ids_are_claimed_with_any_password() {
    let store = SessionStore::new();
    assert!(check_session_request(&AuthMode::Public(None), &store, &request(ID_A, "pw")).is_ok());
    let auth = AuthMode::Public(Some(account(ID_B, "root")));
    assert!(check_session_request(&auth, &store, &request(ID_A, "anything")).is_ok());
    // the account's own id needs the account's password
    assert!(check_session_request(&auth, &store, &request(ID_B, "root")).is_ok());
    let e = check_session_request(&auth, &store, &request(ID_B, "x")).unwrap_err();
    assert_eq!(e.status, 401);
    assert_eq!(e.message, "password doesn't match active session");
}

#[test]
fn session_limit_refuses_new_ids_only() {
    let auth = AuthMode::Public(Some(account(ID_B, "root")));
    let mut store = SessionStore::new();
    for i in 0..SESSION_LIMIT {
        store.insert(session(&format!("{:016}", 1000 + i), "pw", 0));
    }
    assert_eq!(store.len(), SESSION_LIMIT as usize);
    let e = check_session_request(&auth, &store, &request(ID_B, "root")).unwrap_err();
    assert_eq!(e.status, 429);
    assert_eq!(e.message, "too many people connected, try again later");
    // an id that is already open still gets in
    assert!(check_session_request(&auth, &store, &request(&format!("{:016}", 1000), "pw")).is_ok());
}

#[test]
fn opening_a_session_in_public_mode_records_it_for_an_hour() {
    let auth = AuthMode::Public(None);
    let mut store = SessionStore::new();
    let r = open_session(&auth, &mut store, request(ID_A, "pw"));
    assert_eq!(r.id, ID_A);
    assert_eq!(r.username, ID_A);
    assert_eq!(r.password, "pw");
    let expires = r.expires_at.unwrap();
    assert!(expires >= SESSION_LIFETIME_NANOS);
    let s = store.get(ID_A).unwrap();
    assert_eq!(s.expires_at, expires);
    assert!(validate_session_at(&auth, &store, ID_A, "pw", expires - 1));
    assert!(!validate_session_at(&auth, &store, ID_A, "pw", expires));
    assert!(validate_session(&auth, &store, ID_A, "pw"));
    assert!(!validate_session(&auth, &store, ID_A, "other"));
}

#[test]
fn opening_a_session_in_private_mode_records_nothing() {
    let auth = AuthMode::Private(account("me", "secret"));
    let mut store = SessionStore::new();
    let r = open_session(&auth, &mut store, request("me", "secret"));
    assert_eq!(r.expires_at, None);
    assert_eq!(r.username, "me");
    assert_eq!(store.len(), 0);
}

#[test]
fn startup_keeps_only_the_account_directory() {
    let public = AuthMode::Public(Some(account("admin", "root")));
    assert!(keeps_entry_at_startup(&public, "admin"));
    assert!(!keeps_entry_at_startup(&public, "1234567890123456"));
    assert!(!keeps_entry_at_startup(&AuthMode::Public(None), "admin"));
    assert!(keeps_entry_at_startup(&AuthMode::Private(account("a", "b")), "anything"));
}

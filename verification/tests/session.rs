use authcore::auth_session::SessionStore;
use authcore::forms::UserRole;
use authcore::mongo_models::BaseUser;

const NOW: i64 = 1_700_000_000;
const HOUR: i64 = 3600;

fn user() -> BaseUser {
    BaseUser {
        id: Some(0),
        password: "ciphertext".to_string(),
        role: UserRole::Buyer,
        created: NOW,
        modified: NOW,
    }
}

#[test]
fn session_set_then_get_token() {
    let mut store = SessionStore::new(HOUR);
    let sid = store.create_session(NOW);
    store.set_current_user(sid, user(), NOW).unwrap();
    store.set_jwt_token(sid, "tok".to_string(), NOW).unwrap();
    assert_eq!(store.get_jwt_token(sid, NOW + 1), Some("tok".to_string()));
}

#[test]
fn session_write_to_unknown_id_fails() {
    let mut store = SessionStore::new(HOUR);
    assert!(store.set_jwt_token(42, "tok".to_string(), NOW).is_err());
    assert!(store.set_current_user(42, user(), NOW).is_err());
}

#[test]
fn session_expires_without_access() {
    let mut store = SessionStore::new(HOUR);
    let sid = store.create_session(NOW);
    store.set_jwt_token(sid, "tok".to_string(), NOW).unwrap();
    // reads past the deadline see nothing, even before any sweep
    assert_eq!(store.get_jwt_token(sid, NOW + HOUR + 1), None);
}

#[test]
fn sweep_removes_expired_session() {
    let mut store = SessionStore::new(HOUR);
    let sid = store.create_session(NOW);
    store.set_jwt_token(sid, "tok".to_string(), NOW).unwrap();
    // untouched for longer than the window, then the sweep runs
    store.sweep(NOW + HOUR + 1);
    assert_eq!(store.get_jwt_token(sid, NOW + HOUR + 1), None);
}

#[test]
fn access_resets_timer_and_survives_sweep() {
    let mut store = SessionStore::new(HOUR);
    let sid = store.create_session(NOW);
    store.set_jwt_token(sid, "tok".to_string(), NOW).unwrap();
    // touched shortly before expiry: timer resets to a full window
    assert!(store.get_jwt_token(sid, NOW + HOUR - 10).is_some());
    // a sweep after the old deadline no longer removes it
    store.sweep(NOW + HOUR + 1);
    assert_eq!(store.get_jwt_token(sid, NOW + HOUR + 2), Some("tok".to_string()));
}

#[test]
fn sweep_keeps_live_sessions_only() {
    let mut store = SessionStore::new(HOUR);
    let stale = store.create_session(NOW);
    let fresh = store.create_session(NOW + HOUR);
    store.set_jwt_token(stale, "old".to_string(), NOW).unwrap();
    store.set_jwt_token(fresh, "new".to_string(), NOW + HOUR).unwrap();
    store.sweep(NOW + HOUR + 1);
    assert_eq!(store.get_jwt_token(stale, NOW + HOUR + 1), None);
    assert_eq!(store.get_jwt_token(fresh, NOW + HOUR + 1), Some("new".to_string()));
}

#[test]
fn session_holds_current_user() {
    let mut store = SessionStore::new(HOUR);
    let sid = store.create_session(NOW);
    assert!(store.get_current_user(sid, NOW).is_none());
    store.set_current_user(sid, user(), NOW).unwrap();
    let held = store.get_current_user(sid, NOW + 1).unwrap();
    assert_eq!(held.password, "ciphertext");
    assert_eq!(held.role, UserRole::Buyer);
    assert!(store.get_current_user(sid, NOW + HOUR + 2).is_none());
}

#[test]
fn distinct_sessions_do_not_share_state() {
    let mut store = SessionStore::new(HOUR);
    let a = store.create_session(NOW);
    let b = store.create_session(NOW);
    store.set_jwt_token(a, "token-a".to_string(), NOW).unwrap();
    assert_eq!(store.get_jwt_token(b, NOW), None);
    assert_eq!(store.get_jwt_token(a, NOW), Some("token-a".to_string()));
}

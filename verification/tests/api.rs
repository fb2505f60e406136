use authcore::api::ApiError;
use authcore::api::is_authenticated;
use authcore::api::login_user;
use authcore::api::register_user;
use authcore::auth_session::SessionStore;
use authcore::forms::AuthUserForm;
use authcore::forms::UserRole;
use authcore::jwt::decode_jwt;
use authcore::users::get_users_repo;
use authcore::utils::Cipher;

const NOW: i64 = 1_700_000_000;
const HOUR: i64 = 3600;
const SECRET: &[u8] = b"test-signing-secret";

fn cipher() -> Cipher {
    Cipher::new((100u8..132).collect()).unwrap()
}

#[test]
fn register_rejects_invalid_form() {
    let c = cipher();
    let mut repo = get_users_repo();
    let r = register_user(&mut repo, &c, AuthUserForm::new("short".to_string()), NOW);
    assert_eq!(r.unwrap_err(), ApiError::BadRequest);
}

#[test]
fn login_rejects_invalid_form() {
    let c = cipher();
    let repo = get_users_repo();
    let mut sessions = SessionStore::new(HOUR);
    let sid = sessions.create_session(NOW);
    let r = login_user(
        &mut sessions,
        sid,
        &repo,
        &c,
        SECRET,
        AuthUserForm::new("short".to_string()),
        NOW,
    );
    assert_eq!(r.unwrap_err(), ApiError::BadRequest);
}

#[test]
fn login_without_session_is_internal_failure() {
    let c = cipher();
    let mut repo = get_users_repo();
    register_user(
        &mut repo,
        &c,
        AuthUserForm::create_buyer("+255712345678".to_string()),
        NOW,
    )
    .unwrap();
    let mut sessions = SessionStore::new(HOUR);
    let r = login_user(
        &mut sessions,
        7,
        &repo,
        &c,
        SECRET,
        AuthUserForm::new("+255712345678".to_string()),
        NOW,
    );
    assert_eq!(r.unwrap_err(), ApiError::Internal);
}

#[test]
fn end_to_end_register_login_check() {
    let c = cipher();
    let mut repo = get_users_repo();
    let mut sessions = SessionStore::new(HOUR);
    let sid = sessions.create_session(NOW);

    // register "+255712345678" as Buyer: success, role Buyer, ciphertext != plaintext
    let registered = register_user(
        &mut repo,
        &c,
        AuthUserForm::create_buyer("+255712345678".to_string()),
        NOW,
    )
    .unwrap();
    assert_eq!(registered.role, UserRole::Buyer);
    assert_ne!(registered.password, "+255712345678");

    // the same plaintext again: a conflict
    let again = register_user(
        &mut repo,
        &c,
        AuthUserForm::create_buyer("+255712345678".to_string()),
        NOW + 1,
    );
    assert_eq!(again.unwrap_err(), ApiError::Conflict);

    // login with the same plaintext: success, session now holds a token
    // valid for about sixty seconds
    let logged_in = login_user(
        &mut sessions,
        sid,
        &repo,
        &c,
        SECRET,
        AuthUserForm::new("+255712345678".to_string()),
        NOW + 2,
    )
    .unwrap();
    assert_eq!(logged_in.id, registered.id);

    // check-authenticated before expiry: authenticated, and the returned
    // token still validates half a minute in
    let token = is_authenticated(&mut sessions, sid, NOW + 3).unwrap();
    let claims = decode_jwt(SECRET, token.get_token().as_str(), NOW + 32).unwrap();
    assert_eq!(claims.password, logged_in.password);
    assert_eq!(claims.exp, NOW + 2 + 60);
    assert!(decode_jwt(SECRET, token.get_token().as_str(), NOW + 100).is_err());

    // unknown credential still surfaces as not-found
    let miss = login_user(
        &mut sessions,
        sid,
        &repo,
        &c,
        SECRET,
        AuthUserForm::new("+255700000000".to_string()),
        NOW + 4,
    );
    assert_eq!(miss.unwrap_err(), ApiError::NotFound);

    // after the inactivity window lapses and the sweep runs, the session is
    // gone and the check reports unauthenticated
    sessions.sweep(NOW + 3 + HOUR + 1);
    let gone = is_authenticated(&mut sessions, sid, NOW + 3 + HOUR + 2);
    assert_eq!(gone.unwrap_err(), ApiError::Unauthorized);
}

#[test]
fn check_authenticated_without_login_is_unauthorized() {
    let mut sessions = SessionStore::new(HOUR);
    let sid = sessions.create_session(NOW);
    let r = is_authenticated(&mut sessions, sid, NOW);
    assert_eq!(r.unwrap_err(), ApiError::Unauthorized);
}

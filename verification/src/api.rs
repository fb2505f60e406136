//! The authentication orchestrator: the register, login and
//! check-authenticated operations that compose the cipher, the user store,
//! the token issuer and the session store, and map every outcome onto the
//! four classes the boundary layer reports.

use vstd::prelude::*;
use crate::auth_session::SessionRecord;
use crate::auth_session::SessionStore;
use crate::auth_session::has_session;
use crate::auth_session::session_live;
use crate::forms::AuthUserForm;
use crate::forms::Token;
use crate::forms::UserRole;
use crate::forms::valid_form;
use crate::jwt::TOKEN_TTL_SECS;
use crate::jwt::get_jwt;
use crate::jwt::jwt_of;
use crate::mongo_crud::MongoRepo;
use crate::mongo_crud::MongoRepoError;
use crate::mongo_crud::has_password;
use crate::mongo_models::BaseUser;
use crate::users;
use crate::utils::Cipher;
use crate::utils::encryption_of;
use crate::utils::lemma_encode_utf8_len_bound;

verus! {

/// The outcome classes the boundary layer distinguishes: a rejected input,
/// a duplicate registration, an unknown credential, a missing
/// authentication, and every internal failure reported without detail.
#[derive(Clone, Copy, Debug, PartialEq, Eq, Structural)]
pub enum ApiError {
    BadRequest,
    Conflict,
    NotFound,
    Unauthorized,
    Internal,
}

/// Registration: validates the form, registers the credential and returns
/// the stored user.  A duplicate credential is a conflict; every other
/// domain failure is reported as an internal failure.
pub fn register_user(
    repo: &mut MongoRepo,
    cipher: &Cipher,
    payload: AuthUserForm,
    now: i64,
) -> (r: Result<BaseUser, ApiError>)
    requires
        old(repo).wf(),
        cipher.wf(),
        old(repo).spec_next_id() < u64::MAX,
    ensures
        final(repo).wf(),
        final(repo).spec_index_on() == old(repo).spec_index_on(),
        !valid_form(payload.spec_password()) ==> (r matches Err(ApiError::BadRequest))
            && final(repo).spec_docs() == old(repo).spec_docs(),
        valid_form(payload.spec_password()) ==> ({
            let c = encryption_of(cipher.spec_key(), payload.spec_password());
            let conflict = old(repo).spec_index_on() && has_password(old(repo).spec_docs(), c);
            &&& conflict ==> (r matches Err(ApiError::Conflict))
                && final(repo).spec_docs() == old(repo).spec_docs()
            &&& !conflict ==> (r matches Ok(u)
                && u.password@ == c
                && u.password@ != payload.spec_password()
                && u.role == payload.spec_role().unwrap_or(UserRole::Buyer)
                && u.created == now
                && u.modified == now
                && u.id == Some(old(repo).spec_next_id())
                && final(repo).spec_docs() == old(repo).spec_docs().push(u))
        }),
{
    if !payload.validate() {
        return Err(ApiError::BadRequest);
    }
    proof {
        lemma_encode_utf8_len_bound(payload.spec_password());
    }
    match users::register_user(repo, cipher, payload, now) {
        Ok(user) => Ok(user),
        Err(e) => match e {
            MongoRepoError::PasswordExistsError(_) => Err(ApiError::Conflict),
            _ => Err(ApiError::Internal),
        },
    }
}

/// Login: validates the form, authenticates by ciphertext lookup, issues a
/// short-lived token and stores the user and the token in the caller's
/// session.  An unknown credential is not-found; a token-issue or
/// session-write failure is an internal failure even though the credential
/// was valid (fail closed), and then leaves the session untouched.
pub fn login_user(
    session: &mut SessionStore,
    session_id: u64,
    repo: &MongoRepo,
    cipher: &Cipher,
    secret: &[u8],
    payload: AuthUserForm,
    now: i64,
) -> (r: Result<BaseUser, ApiError>)
    requires
        old(session).wf(),
        cipher.wf(),
        now <= i64::MAX - TOKEN_TTL_SECS,
        now <= i64::MAX - old(session).spec_window(),
    ensures
        final(session).wf(),
        final(session).spec_window() == old(session).spec_window(),
        final(session).spec_next_id() == old(session).spec_next_id(),
        r is Err ==> final(session).spec_records() == old(session).spec_records(),
        !valid_form(payload.spec_password()) ==> r matches Err(ApiError::BadRequest),
        valid_form(payload.spec_password()) && !has_password(
            repo.spec_docs(),
            encryption_of(cipher.spec_key(), payload.spec_password()),
        ) ==> r matches Err(ApiError::NotFound),
        valid_form(payload.spec_password()) && has_password(
            repo.spec_docs(),
            encryption_of(cipher.spec_key(), payload.spec_password()),
        ) && !has_session(old(session).spec_records(), session_id) ==> r matches Err(
            ApiError::Internal,
        ),
        valid_form(payload.spec_password()) && has_password(
            repo.spec_docs(),
            encryption_of(cipher.spec_key(), payload.spec_password()),
        ) && has_session(old(session).spec_records(), session_id) ==> r is Ok,
        r matches Ok(u) ==> ({
            let c = encryption_of(cipher.spec_key(), payload.spec_password());
            &&& valid_form(payload.spec_password())
            &&& u.password@ == c
            &&& exists|i: int|
                0 <= i < repo.spec_docs().len() && #[trigger] repo.spec_docs()[i] == u
            &&& exists|i: int|
                0 <= i < old(session).spec_records().len()
                    && (#[trigger] old(session).spec_records()[i].id) == session_id
                    && final(session).spec_records() == old(session).spec_records().update(
                    i,
                    SessionRecord {
                        current_user: Some(u),
                        jwt_token: Some(final(session).spec_records()[i].jwt_token.unwrap()),
                        deadline: (now + old(session).spec_window()) as i64,
                        ..old(session).spec_records()[i]
                    },
                ) && final(session).spec_records()[i].jwt_token.unwrap()@ == jwt_of(
                    secret@,
                    u.password@,
                    (now + TOKEN_TTL_SECS) as i64,
                )
        }),
{
    if !payload.validate() {
        return Err(ApiError::BadRequest);
    }
    proof {
        lemma_encode_utf8_len_bound(payload.spec_password());
    }
    let user = match users::login_user(repo, cipher, payload) {
        Ok(user) => user,
        Err(e) => {
            return match e {
                MongoRepoError::NotFoundError(_) => Err(ApiError::NotFound),
                _ => Err(ApiError::Internal),
            };
        },
    };
    let token = match get_jwt(secret, user.password.as_str(), now) {
        Ok(token) => token,
        Err(_) => {
            return Err(ApiError::Internal);
        },
    };
    let ghost pre = session.spec_records();
    match session.set_current_user(session_id, user.clone(), now) {
        Ok(()) => {},
        Err(_) => {
            return Err(ApiError::Internal);
        },
    }
    let ghost mid = session.spec_records();
    match session.set_jwt_token(session_id, token, now) {
        Ok(()) => {},
        Err(_) => {
            proof {
                let i = choose|i: int|
                    0 <= i < pre.len() && (#[trigger] pre[i].id) == session_id && mid
                        == pre.update(
                        i,
                        SessionRecord {
                            current_user: Some(user),
                            deadline: (now + old(session).spec_window()) as i64,
                            ..pre[i]
                        },
                    );
                assert(has_session(mid, session_id)) by {
                    assert(mid[i].id == session_id);
                }
            }
            return Err(ApiError::Internal);
        },
    }
    proof {
        let i = choose|i: int|
            0 <= i < pre.len() && (#[trigger] pre[i].id) == session_id && mid == pre.update(
                i,
                SessionRecord {
                    current_user: Some(user),
                    deadline: (now + old(session).spec_window()) as i64,
                    ..pre[i]
                },
            );
        let j = choose|j: int|
            0 <= j < mid.len() && (#[trigger] mid[j].id) == session_id && session.spec_records()
                == mid.update(
                j,
                SessionRecord {
                    jwt_token: Some(session.spec_records()[j].jwt_token.unwrap()),
                    deadline: (now + old(session).spec_window()) as i64,
                    ..mid[j]
                },
            );
        assert(has_session(mid, session_id)) by {
            assert(mid[i].id == session_id);
        }
        if i != j {
            assert(mid[i].id != mid[j].id);
        }
        assert(session.spec_records() =~= pre.update(
            i,
            SessionRecord {
                current_user: Some(user),
                jwt_token: Some(session.spec_records()[i].jwt_token.unwrap()),
                deadline: (now + old(session).spec_window()) as i64,
                ..pre[i]
            },
        ));
    }
    Ok(user)
}

/// Check-authenticated: reads the token from the caller's live session.
/// Present means authenticated, and the read slides the session's
/// inactivity timer; absent — no session, an expired session or no stored
/// token — means unauthenticated.
pub fn is_authenticated(session: &mut SessionStore, session_id: u64, now: i64) -> (r: Result<
    Token,
    ApiError,
>)
    requires
        old(session).wf(),
        now <= i64::MAX - old(session).spec_window(),
    ensures
        final(session).wf(),
        final(session).spec_window() == old(session).spec_window(),
        final(session).spec_next_id() == old(session).spec_next_id(),
        ({
            let found = exists|i: int|
                0 <= i < old(session).spec_records().len()
                    && (#[trigger] old(session).spec_records()[i].id) == session_id
                    && session_live(old(session).spec_records()[i], now)
                    && old(session).spec_records()[i].jwt_token is Some;
            &&& r is Ok <==> found
            &&& r matches Ok(t) ==> exists|i: int|
                0 <= i < old(session).spec_records().len()
                    && (#[trigger] old(session).spec_records()[i].id) == session_id
                    && session_live(old(session).spec_records()[i], now)
                    && (old(session).spec_records()[i].jwt_token matches Some(v)
                    && t.spec_token() == v@)
                    && final(session).spec_records() == old(session).spec_records().update(
                    i,
                    SessionRecord {
                        deadline: (now + old(session).spec_window()) as i64,
                        ..old(session).spec_records()[i]
                    },
                )
            &&& !found ==> (r matches Err(ApiError::Unauthorized))
                && final(session).spec_records() == old(session).spec_records()
        }),
{
    match session.get_jwt_token(session_id, now) {
        Some(value) => Ok(Token::new(value)),
        None => Err(ApiError::Unauthorized),
    }
}

} // verus!

//! Short-lived signed bearer tokens.
//!
//! A token carries two claims — the encrypted credential and an expiry one
//! minute after issue — and is signed with a process-wide secret using an
//! HMAC-SHA-256 signature.  The signature check is delegated to the token
//! library; the temporal check is done here, against a caller-supplied
//! clock reading, so that freshness is decided by verified code.

use vstd::prelude::*;

verus! {

/// The signed compact token that carries the claims `password == password`
/// and `exp == exp`, under the given signing secret.
pub uninterp spec fn jwt_of(secret: Seq<u8>, password: Seq<char>, exp: i64) -> Seq<char>;

/// That the token carries an HMAC-SHA-256 signature which verifies under
/// the secret.  Claims are never returned from a token without this.
pub uninterp spec fn jwt_verifies(secret: Seq<u8>, token: Seq<char>) -> bool;

/// How long an issued token stays valid, in seconds.
pub const TOKEN_TTL_SECS: i64 = 60;

/// Token issuance failed inside the signing library.
#[derive(Clone, Copy, Debug, PartialEq, Eq, Structural)]
pub struct IssueError;

/// Token validation failed: bad signature, malformed token or expired —
/// deliberately not distinguished.
#[derive(Clone, Copy, Debug, PartialEq, Eq, Structural)]
pub struct ValidateError;

/// The claim set carried by a valid token.
#[derive(Debug)]
pub struct Claims {
    pub password: String,
    pub exp: i64,
}

/// A token with expiry `exp` is fresh at time `now` exactly when `now` has
/// not passed `exp`.
pub open spec fn token_fresh(exp: int, now: int) -> bool {
    now <= exp
}

/// Relies on `jsonwebtoken::encode` with the default (HS256) header: the
/// compact token is a function of the secret and the claim set alone — the
/// claim map is serialized with sorted keys and HMAC-SHA-256 is
/// deterministic.  With a secret key the call cannot fail: the key family
/// matches the default header's algorithm, the HMAC construction accepts a
/// secret of any length, signing is infallible, and serializing a string
/// and an integer claim cannot fail.
#[verifier::external_body]
fn jwt_sign(secret: &[u8], password: &str, exp: i64) -> (r: String)
    ensures
        r@ == jwt_of(secret@, password@, exp),
{
    let mut claims = serde_json::Map::new();
    claims.insert("password".to_string(), serde_json::Value::from(password));
    claims.insert("exp".to_string(), serde_json::Value::from(exp));
    jsonwebtoken::encode(
        &jsonwebtoken::Header::default(),
        &serde_json::Value::Object(claims),
        &jsonwebtoken::EncodingKey::from_secret(secret),
    ).unwrap()
}

/// Relies on `jsonwebtoken::decode` with HS256 and temporal checks turned
/// off: a token produced by `jsonwebtoken::encode` under the same secret
/// passes the signature check and yields back exactly the claims that were
/// signed, and claims come back only from a token whose signature verifies
/// under the secret.
#[verifier::external_body]
fn jwt_verify(secret: &[u8], token: &str) -> (r: Result<(String, i64), ()>)
    ensures
        forall|pw: Seq<char>, exp: i64|
            token@ == jwt_of(secret@, pw, exp) ==> r is Ok && r.unwrap().0@ == pw
                && r.unwrap().1 == exp,
        r is Ok ==> jwt_verifies(secret@, token@),
{
    let mut validation = jsonwebtoken::Validation::new(jsonwebtoken::Algorithm::HS256);
    validation.validate_exp = false;
    validation.required_spec_claims.clear();
    let key = jsonwebtoken::DecodingKey::from_secret(secret);
    let data = jsonwebtoken::decode::<serde_json::Value>(token, &key, &validation)
        .map_err(|_| ())?;
    let pw = data.claims.get("password").and_then(|v| v.as_str()).ok_or(())?.to_string();
    let exp = data.claims.get("exp").and_then(|v| v.as_i64()).ok_or(())?;
    Ok((pw, exp))
}

/// Issues a token for the given encrypted credential, expiring one minute
/// after `now` (epoch seconds).  With the secret in hand, issuance always
/// succeeds; the `Result` is the shape the boundary consumes, whose error
/// arises only where the signing secret is not configured at all — a case
/// the configuration loader, not this function, handles.
pub fn get_jwt(secret: &[u8], password: &str, now: i64) -> (r: Result<String, IssueError>)
    requires
        now <= i64::MAX - TOKEN_TTL_SECS,
    ensures
        r matches Ok(t) && t@ == jwt_of(secret@, password@, (now + TOKEN_TTL_SECS) as i64),
{
    Ok(jwt_sign(secret, password, now + TOKEN_TTL_SECS))
}

/// Validates a token against the secret and the clock reading `now` (epoch
/// seconds): for a token signed under this secret, validation succeeds
/// exactly while the token is fresh, and returns the signed claims; claims
/// are never returned from a token whose signature does not verify under
/// the secret.  Any failure is reported uniformly.
pub fn decode_jwt(secret: &[u8], token: &str, now: i64) -> (r: Result<Claims, ValidateError>)
    ensures
        forall|pw: Seq<char>, exp: i64|
            token@ == jwt_of(secret@, pw, exp) ==> ((r is Ok <==> token_fresh(
                exp as int,
                now as int,
            )) && (r is Ok ==> r.unwrap().password@ == pw && r.unwrap().exp == exp)),
        r is Ok ==> jwt_verifies(secret@, token@),
{
    match jwt_verify(secret, token) {
        Ok((password, exp)) => {
            if now <= exp {
                Ok(Claims { password, exp })
            } else {
                Err(ValidateError)
            }
        },
        Err(_) => Err(ValidateError),
    }
}

/// Law: the one-minute window.  A token issued at time `t` is still fresh
/// thirty seconds later and no longer fresh sixty-one seconds later.
pub proof fn lemma_token_expiry(t: int)
    ensures
        token_fresh(t + TOKEN_TTL_SECS, t + 30),
        !token_fresh(t + TOKEN_TTL_SECS, t + 61),
{
}

} // verus!

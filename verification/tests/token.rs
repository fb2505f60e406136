use authcore::forms::Token;
use authcore::jwt::decode_jwt;
use authcore::jwt::get_jwt;

const SECRET: &[u8] = b"test-signing-secret";
const NOW: i64 = 1_700_000_000;

#[test]
fn token_round_trip_returns_claims() {
    let token = get_jwt(SECRET, "ciphertext-goes-here", NOW).unwrap();
    let claims = decode_jwt(SECRET, token.as_str(), NOW).unwrap();
    assert_eq!(claims.password, "ciphertext-goes-here");
    assert_eq!(claims.exp, NOW + 60);
}

#[test]
fn token_valid_within_window() {
    let token = get_jwt(SECRET, "ciphertext-goes-here", NOW).unwrap();
    assert!(decode_jwt(SECRET, token.as_str(), NOW + 30).is_ok());
}

#[test]
fn token_invalid_after_window() {
    let token = get_jwt(SECRET, "ciphertext-goes-here", NOW).unwrap();
    assert!(decode_jwt(SECRET, token.as_str(), NOW + 61).is_err());
}

#[test]
fn token_valid_at_exact_expiry() {
    let token = get_jwt(SECRET, "ciphertext-goes-here", NOW).unwrap();
    assert!(decode_jwt(SECRET, token.as_str(), NOW + 60).is_ok());
}

#[test]
fn token_issue_is_deterministic() {
    let first = get_jwt(SECRET, "ciphertext-goes-here", NOW).unwrap();
    let second = get_jwt(SECRET, "ciphertext-goes-here", NOW).unwrap();
    assert_eq!(first, second);
}

#[test]
fn token_rejects_wrong_secret() {
    let token = get_jwt(SECRET, "ciphertext-goes-here", NOW).unwrap();
    assert!(decode_jwt(b"another-signing-secret", token.as_str(), NOW).is_err());
}

#[test]
fn token_rejects_garbage() {
    assert!(decode_jwt(SECRET, "definitely.not.a-token", NOW).is_err());
    assert!(decode_jwt(SECRET, "", NOW).is_err());
}

#[test]
fn token_rejects_tampered_payload() {
    let token = get_jwt(SECRET, "ciphertext-goes-here", NOW).unwrap();
    let mut parts: Vec<&str> = token.split('.').collect();
    assert_eq!(parts.len(), 3);
    let other = get_jwt(SECRET, "another-ciphertext", NOW).unwrap();
    let other_parts: Vec<&str> = other.split('.').collect();
    parts[1] = other_parts[1];
    let forged = parts.join(".");
    assert!(decode_jwt(SECRET, forged.as_str(), NOW).is_err());
}

#[test]
fn token_wrapper_holds_value() {
    let token = Token::new("abc".to_string());
    assert_eq!(token.get_token(), "abc");
}

use cleaner_oauth::scopes::{Scope, ScopeSet};
use cleaner_oauth::tokens::{
    generate_authorization_code, generate_client_secret, generate_code_challenge, generate_code_verifier,
    generate_random_token, generate_state, hash_token, TokenError, TokenGenerator, TokenKind,
};

const NOW: i64 = 1_700_000_000;

#[test]
fn token_digest_is_hex_sha256() {
    assert_eq!(hash_token("abc"), "ba7816bf8f01cfea414140de5dae2223b00361a396177a9cb410ff61f20015ad");
    assert_eq!(hash_token("abc").len(), 64);
}

#[test]
fn s256_challenge_is_base64url_of_sha256() {
    assert_eq!(generate_code_challenge("abc"), "ungWv48Bz-pBQUDeXa4iI7ADYaOWF3qctBD_YfIAFa0");
    assert_ne!(generate_code_challenge("verifier1"), "verifier1");
}

#[test]
fn random_identifiers_have_their_lengths() {
    let t = generate_random_token(32);
    assert_eq!(t.len(), 32);
    assert!(t.chars().all(|c| c.is_ascii_alphanumeric()));
    assert_eq!(generate_random_token(0), "");
    assert_eq!(generate_authorization_code().len(), 43);
    assert_eq!(generate_client_secret().len(), 64);
    assert_eq!(generate_state().len(), 32);
    assert_eq!(generate_code_verifier().len(), 128);
    assert_ne!(generate_random_token(32), generate_random_token(32));
}

#[test]
fn codec_needs_a_secret() {
    assert!(matches!(TokenGenerator::new(Vec::new()), Err(TokenError::MissingSecret)));
    assert!(TokenGenerator::new(b"s".to_vec()).is_ok());
}

#[test]
fn issued_tokens_verify_with_their_claims() {
    let g = TokenGenerator::new(b"test-secret".to_vec()).unwrap();
    let scopes = ScopeSet::from_vec(vec![Scope::RoomsRead, Scope::ZonesRead]);
    let (tok, jti) = g.generate_access_token(Some("user-1"), "client-1", &scopes, 60, NOW).unwrap();
    assert_eq!(jti.len(), 32);
    let c = g.validate_access_token(&tok, NOW).unwrap();
    assert_eq!(c.sub, "user-1");
    assert_eq!(c.client_id, "client-1");
    assert_eq!(c.scopes, "rooms:read zones:read");
    assert_eq!(c.token_type, "access_token");
    assert_eq!(c.iat, NOW);
    assert_eq!(c.exp, NOW + 3600);
    assert_eq!(c.jti, jti);
    let (ctok, _) = g.generate_access_token(None, "client-1", &scopes, 60, NOW).unwrap();
    assert_eq!(g.validate_access_token(&ctok, NOW).unwrap().sub, "client-1");
}

#[test]
fn verification_rejects_wrong_kind_expiry_and_signature() {
    let g = TokenGenerator::new(b"test-secret".to_vec()).unwrap();
    let scopes = ScopeSet::new();
    let (access, _) = g.generate_access_token(Some("u"), "c", &scopes, 60, NOW).unwrap();
    let (refresh, _) = g.generate_refresh_token(Some("u"), "c", &scopes, 30, NOW).unwrap();
    assert!(matches!(g.validate_refresh_token(&access, NOW), Err(TokenError::Invalid)));
    assert!(matches!(g.validate_access_token(&refresh, NOW), Err(TokenError::Invalid)));
    assert_eq!(g.validate_refresh_token(&refresh, NOW).unwrap().exp, NOW + 30 * 86400);
    assert!(g.validate_access_token(&access, NOW + 3600).is_ok());
    assert!(matches!(g.validate_access_token(&access, NOW + 3601), Err(TokenError::Expired)));
    let other = TokenGenerator::new(b"other-secret".to_vec()).unwrap();
    assert!(matches!(other.validate_access_token(&access, NOW), Err(TokenError::JwtError)));
    assert!(matches!(g.validate_access_token("invalid-jwt-token", NOW), Err(TokenError::JwtError)));
    assert!(matches!(g.verify(&refresh, TokenKind::Refresh, NOW), Ok(_)));
    assert_eq!(TokenKind::Access.as_str(), "access_token");
}

#[test]
fn secret_digest_verifies_its_password() {
    let h = cleaner_oauth::password::hash_password("password123").unwrap();
    assert!(cleaner_oauth::password::verify_password("password123", &h).unwrap());
    assert!(!cleaner_oauth::password::verify_password("password124", &h).unwrap());
    assert!(cleaner_oauth::password::verify_password("x", "not a phc string").is_err());
}

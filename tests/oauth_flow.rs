use cleaner_oauth::authorize::{AuthorizeOutcome, AuthorizeParams, ConsentForm, Redirect};
use cleaner_oauth::clients::CreateClientRequest;
use cleaner_oauth::error::AppError;
use cleaner_oauth::middleware::{auth_client, auth_user, check_client_scope, check_scope, require_scope};
use cleaner_oauth::scopes::Scope;
use cleaner_oauth::server::{AuthServer, TokenRequest, TokenResponse};
use cleaner_oauth::tokens::generate_code_challenge;

const NOW: i64 = 1_700_000_000;

fn server() -> AuthServer {
    AuthServer::new(b"flow-secret".to_vec()).unwrap()
}

fn register(srv: &mut AuthServer, public: bool, scopes: &[&str]) -> (String, String) {
    let cred = srv
        .create_client(CreateClientRequest {
            name: "Cleaner App".to_string(),
            redirect_uris: vec!["https://cb/".to_string()],
            grant_types: vec!["authorization_code".to_string(), "refresh_token".to_string()],
            scopes: scopes.iter().map(|s| s.to_string()).collect(),
            is_public: Some(public),
        })
        .unwrap();
    (cred.client_id, cred.client_secret)
}

fn params(client_id: &str, challenge: Option<String>, method: Option<&str>) -> AuthorizeParams {
    AuthorizeParams {
        response_type: "code".to_string(),
        client_id: client_id.to_string(),
        redirect_uri: "https://cb/".to_string(),
        scope: Some("rooms:read rooms:write".to_string()),
        state: Some("xyz".to_string()),
        code_challenge: challenge,
        code_challenge_method: method.map(|m| m.to_string()),
    }
}

fn approve(srv: &mut AuthServer, client_id: &str, scope: &str, challenge: Option<String>, method: Option<&str>) -> String {
    let rd = srv
        .consent(
            &ConsentForm {
                user_id: "user-1".to_string(),
                client_id: client_id.to_string(),
                redirect_uri: "https://cb/".to_string(),
                scope: scope.to_string(),
                state: Some("xyz".to_string()),
                code_challenge: challenge,
                code_challenge_method: method.map(|m| m.to_string()),
                approved: "true".to_string(),
            },
            NOW,
        )
        .unwrap();
    assert_eq!(rd.params[0].0, "code");
    assert_eq!(rd.params[1], ("state".to_string(), "xyz".to_string()));
    rd.params[0].1.clone()
}

fn code_request(client_id: &str, secret: Option<&str>, code: &str, verifier: Option<&str>) -> TokenRequest {
    TokenRequest {
        grant_type: "authorization_code".to_string(),
        client_id: client_id.to_string(),
        client_secret: secret.map(|s| s.to_string()),
        code: Some(code.to_string()),
        redirect_uri: Some("https://cb/".to_string()),
        code_verifier: verifier.map(|v| v.to_string()),
        refresh_token: None,
        scope: None,
        username: None,
        password: None,
    }
}

fn refresh_request(client_id: &str, token: &str) -> TokenRequest {
    TokenRequest {
        grant_type: "refresh_token".to_string(),
        client_id: client_id.to_string(),
        client_secret: None,
        code: None,
        redirect_uri: None,
        code_verifier: None,
        refresh_token: Some(token.to_string()),
        scope: None,
        username: None,
        password: None,
    }
}

fn client_request(client_id: &str, scope: Option<&str>) -> TokenRequest {
    TokenRequest {
        grant_type: "client_credentials".to_string(),
        client_id: client_id.to_string(),
        client_secret: None,
        code: None,
        redirect_uri: None,
        code_verifier: None,
        refresh_token: None,
        scope: scope.map(|s| s.to_string()),
        username: None,
        password: None,
    }
}

fn public_login(srv: &mut AuthServer, scope: &str) -> (String, TokenResponse) {
    let (cid, _) = register(srv, true, &["rooms:read", "rooms:write", "stats:read"]);
    let code = approve(srv, &cid, scope, None, None);
    let resp = srv.token(&code_request(&cid, None, &code, None), NOW).unwrap();
    (cid, resp)
}

fn bearer(t: &str) -> String {
    format!("Bearer {}", t)
}

#[test]
fn confidential_client_pkce_code_flow() {
    let mut srv = server();
    let (cid, secret) = register(&mut srv, false, &["rooms:read", "rooms:write"]);
    assert_eq!(cid.len(), 36);
    assert_eq!(secret.len(), 64);
    let challenge = generate_code_challenge("verifier1");
    match srv.authorize(&params(&cid, Some(challenge.clone()), Some("S256"))) {
        AuthorizeOutcome::Consent(c) => {
            assert_eq!(c.client_name, "Cleaner App");
            assert_eq!(c.code_challenge, Some(challenge.clone()));
        }
        AuthorizeOutcome::Redirect(r) => panic!("unexpected redirect {:?}", r),
    }
    let code = approve(&mut srv, &cid, "rooms:read rooms:write", Some(challenge), Some("S256"));
    assert_eq!(code.len(), 43);
    let resp = srv.token(&code_request(&cid, Some(&secret), &code, Some("verifier1")), NOW).unwrap();
    assert!(!resp.access_token.is_empty());
    assert!(!resp.refresh_token.clone().unwrap().is_empty());
    assert_eq!(resp.token_type, "Bearer");
    assert_eq!(resp.expires_in, 3600);
    assert_eq!(resp.scope, "rooms:read rooms:write");
    let again = srv.token(&code_request(&cid, Some(&secret), &code, Some("verifier1")), NOW);
    assert_eq!(again.err(), Some(AppError::InvalidGrant));
    assert_eq!(AppError::InvalidGrant.status(), 400);
}

#[test]
fn wrong_client_secret_is_invalid_client() {
    let mut srv = server();
    let (cid, _secret) = register(&mut srv, false, &["rooms:read"]);
    let code = approve(&mut srv, &cid, "rooms:read", None, None);
    let r = srv.token(&code_request(&cid, Some("not-the-secret"), &code, None), NOW);
    assert_eq!(r.err(), Some(AppError::InvalidClient));
    let r = srv.token(&code_request(&cid, None, &code, None), NOW);
    assert_eq!(r.err(), Some(AppError::InvalidClient));
    let r = srv.token(&code_request("no-such-client", None, &code, None), NOW);
    assert_eq!(r.err(), Some(AppError::InvalidClient));
}

#[test]
fn code_is_redeemed_once() {
    let mut srv = server();
    let (cid, _) = register(&mut srv, true, &["rooms:read"]);
    let code = approve(&mut srv, &cid, "rooms:read", None, None);
    assert!(srv.token(&code_request(&cid, None, &code, None), NOW).is_ok());
    assert_eq!(srv.token(&code_request(&cid, None, &code, None), NOW).err(), Some(AppError::InvalidGrant));
    assert_eq!(srv.token(&code_request(&cid, None, &code, None), NOW + 1).err(), Some(AppError::InvalidGrant));
}

#[test]
fn pkce_verifier_is_required_and_checked() {
    let mut srv = server();
    let (cid, _) = register(&mut srv, true, &["rooms:read"]);
    let challenge = generate_code_challenge("verifier1");
    let code = approve(&mut srv, &cid, "rooms:read", Some(challenge), Some("S256"));
    assert_eq!(srv.token(&code_request(&cid, None, &code, None), NOW).err(), Some(AppError::InvalidGrant));
    assert_eq!(srv.token(&code_request(&cid, None, &code, Some("verifier2")), NOW).err(), Some(AppError::InvalidGrant));
    assert_eq!(srv.token(&code_request(&cid, None, &code, Some(&generate_code_challenge("verifier1"))), NOW).err(), Some(AppError::InvalidGrant));
    assert!(srv.token(&code_request(&cid, None, &code, Some("verifier1")), NOW).is_ok());
    assert_eq!(srv.token(&code_request(&cid, None, &code, Some("verifier1")), NOW).err(), Some(AppError::InvalidGrant));
}

#[test]
fn plain_pkce_compares_verbatim() {
    let mut srv = server();
    let (cid, _) = register(&mut srv, true, &["rooms:read"]);
    let code = approve(&mut srv, &cid, "rooms:read", Some("same-text".to_string()), None);
    assert_eq!(srv.token(&code_request(&cid, None, &code, Some("other")), NOW).err(), Some(AppError::InvalidGrant));
    assert!(srv.token(&code_request(&cid, None, &code, Some("same-text")), NOW).is_ok());
}

#[test]
fn expired_or_mismatched_code_is_invalid_grant() {
    let mut srv = server();
    let (cid, _) = register(&mut srv, true, &["rooms:read"]);
    let code = approve(&mut srv, &cid, "rooms:read", None, None);
    let mut req = code_request(&cid, None, &code, None);
    req.redirect_uri = Some("https://cb/other".to_string());
    assert_eq!(srv.token(&req, NOW).err(), Some(AppError::InvalidGrant));
    assert_eq!(srv.token(&code_request(&cid, None, &code, None), NOW + 601).err(), Some(AppError::InvalidGrant));
    assert_eq!(srv.token(&code_request(&cid, None, &code, None), NOW).err(), Some(AppError::InvalidGrant));
    let mut missing = code_request(&cid, None, &code, None);
    missing.code = None;
    assert_eq!(srv.token(&missing, NOW).err(), Some(AppError::InvalidRequest));
    let code2 = approve(&mut srv, &cid, "rooms:read", None, None);
    assert!(srv.token(&code_request(&cid, None, &code2, None), NOW + 600).is_ok());
}

#[test]
fn refresh_rotation_retires_the_old_token() {
    let mut srv = server();
    let (cid, first) = public_login(&mut srv, "rooms:read");
    let old = first.refresh_token.unwrap();
    let second = srv.token(&refresh_request(&cid, &old), NOW + 10).unwrap();
    let new = second.refresh_token.clone().unwrap();
    assert_ne!(new, old);
    assert_eq!(second.scope, "rooms:read");
    assert_eq!(srv.token(&refresh_request(&cid, &old), NOW + 20).err(), Some(AppError::InvalidGrant));
    assert!(srv.token(&refresh_request(&cid, &new), NOW + 30).is_ok());
    assert!(srv.extract_and_validate_token(Some(&bearer(&second.access_token)), NOW + 30).is_ok());
}

#[test]
fn refresh_checks_kind_and_client() {
    let mut srv = server();
    let (cid, first) = public_login(&mut srv, "rooms:read");
    let (other, _) = register(&mut srv, true, &["rooms:read"]);
    let rt = first.refresh_token.unwrap();
    assert_eq!(srv.token(&refresh_request(&other, &rt), NOW).err(), Some(AppError::InvalidGrant));
    assert_eq!(srv.token(&refresh_request(&cid, &first.access_token), NOW).err(), Some(AppError::InvalidGrant));
    assert_eq!(srv.token(&refresh_request(&cid, "garbage"), NOW).err(), Some(AppError::InvalidGrant));
    let mut missing = refresh_request(&cid, &rt);
    missing.refresh_token = None;
    assert_eq!(srv.token(&missing, NOW).err(), Some(AppError::InvalidRequest));
}

#[test]
fn revoked_access_token_is_rejected() {
    let mut srv = server();
    let (cid, resp) = public_login(&mut srv, "rooms:read");
    let info = srv.extract_and_validate_token(Some(&bearer(&resp.access_token)), NOW).unwrap();
    assert_eq!(info.client_id, cid);
    assert_eq!(info.user_id, Some("user-1".to_string()));
    let intro = srv.introspect(&resp.access_token, NOW);
    assert!(intro.active);
    assert_eq!(intro.scope, Some("rooms:read".to_string()));
    assert_eq!(intro.client_id, Some(cid.clone()));
    assert_eq!(intro.username, Some("user-1".to_string()));
    assert_eq!(intro.sub, Some("user-1".to_string()));
    assert_eq!(intro.exp, Some(NOW + 3600));
    srv.revoke(&resp.access_token);
    assert_eq!(srv.extract_and_validate_token(Some(&bearer(&resp.access_token)), NOW).err(), Some(AppError::Unauthorized));
    assert!(!srv.introspect(&resp.access_token, NOW).active);
    assert!(srv.introspect(&resp.refresh_token.unwrap(), NOW).active);
}

#[test]
fn revoked_refresh_token_cascades_to_siblings() {
    let mut srv = server();
    let (cid, resp) = public_login(&mut srv, "rooms:read");
    let rt = resp.refresh_token.clone().unwrap();
    srv.revoke(&rt);
    assert!(!srv.introspect(&rt, NOW).active);
    let r = srv.extract_and_validate_token(Some(&bearer(&resp.access_token)), NOW);
    assert_eq!(r.err(), Some(AppError::Unauthorized));
    assert_eq!(AppError::Unauthorized.status(), 401);
    assert_eq!(srv.token(&refresh_request(&cid, &rt), NOW).err(), Some(AppError::InvalidGrant));
    srv.revoke("not-a-token");
}

#[test]
fn client_credentials_scopes_are_bounded() {
    let mut srv = server();
    let (cid, _) = register(&mut srv, true, &["rooms:read", "stats:read"]);
    let ok = srv.token(&client_request(&cid, Some("stats:read")), NOW).unwrap();
    assert_eq!(ok.scope, "stats:read");
    assert!(ok.refresh_token.is_none());
    let all = srv.token(&client_request(&cid, None), NOW).unwrap();
    assert_eq!(all.scope, "rooms:read stats:read");
    assert_eq!(srv.token(&client_request(&cid, Some("rooms:write")), NOW).err(), Some(AppError::InvalidScope));
    assert_eq!(srv.token(&client_request(&cid, Some("rooms:read nope")), NOW).err(), Some(AppError::InvalidScope));
    let info = srv.extract_and_validate_token(Some(&bearer(&ok.access_token)), NOW).unwrap();
    assert_eq!(info.user_id, None);
    assert_eq!(auth_user(info).err(), Some(AppError::Unauthorized));
    let info = srv.extract_and_validate_token(Some(&bearer(&ok.access_token)), NOW).unwrap();
    let client = auth_client(info);
    assert_eq!(client.client_id, cid);
    assert!(check_client_scope(&client, &Scope::StatsRead).is_ok());
    assert_eq!(srv.introspect(&ok.access_token, NOW).username, None);
}

#[test]
fn read_scope_cannot_write() {
    let mut srv = server();
    let (_, resp) = public_login(&mut srv, "rooms:read");
    let info = srv.extract_and_validate_token(Some(&bearer(&resp.access_token)), NOW).unwrap();
    let user = auth_user(info).unwrap();
    assert_eq!(user.user_id, "user-1");
    assert!(check_scope(&user, &Scope::RoomsRead).is_ok());
    let denied = check_scope(&user, &Scope::RoomsWrite);
    assert_eq!(denied.err(), Some(AppError::Forbidden));
    assert_eq!(AppError::Forbidden.status(), 403);
    assert_eq!(require_scope(&user.scopes, &Scope::Admin).err(), Some(AppError::Forbidden));
}

#[test]
fn bearer_header_is_required() {
    let mut srv = server();
    let (_, resp) = public_login(&mut srv, "rooms:read");
    assert_eq!(srv.extract_and_validate_token(None, NOW).err(), Some(AppError::Unauthorized));
    assert_eq!(srv.extract_and_validate_token(Some(&format!("Basic {}", resp.access_token)), NOW).err(), Some(AppError::Unauthorized));
    assert_eq!(srv.extract_and_validate_token(Some("Bearer invalid-jwt-token"), NOW).err(), Some(AppError::Unauthorized));
    assert_eq!(srv.extract_and_validate_token(Some(&bearer(&resp.access_token)), NOW + 3601).err(), Some(AppError::Unauthorized));
    let refresh = resp.refresh_token.unwrap();
    assert_eq!(srv.extract_and_validate_token(Some(&bearer(&refresh)), NOW).err(), Some(AppError::Unauthorized));
}

fn expect_error(outcome: AuthorizeOutcome, error: &str) -> Redirect {
    match outcome {
        AuthorizeOutcome::Redirect(r) => {
            assert_eq!(r.params[0], ("error".to_string(), error.to_string()));
            r
        }
        AuthorizeOutcome::Consent(_) => panic!("expected an error redirect"),
    }
}

#[test]
fn authorize_errors_redirect_to_caller() {
    let mut srv = server();
    let (cid, _) = register(&mut srv, true, &["rooms:read"]);
    let mut p = params(&cid, None, None);
    p.response_type = "token".to_string();
    let r = expect_error(srv.authorize(&p), "unsupported_response_type");
    assert_eq!(r.uri, "https://cb/");
    assert_eq!(r.params[2], ("state".to_string(), "xyz".to_string()));
    assert_eq!(
        r.location().unwrap(),
        "https://cb/?error=unsupported_response_type&error_description=Only+%27code%27+response+type+is+supported&state=xyz"
    );
    expect_error(srv.authorize(&params("ghost", None, None)), "invalid_client");
    let mut p = params(&cid, None, None);
    p.redirect_uri = "https://cb/evil".to_string();
    expect_error(srv.authorize(&p), "invalid_request");
    expect_error(srv.authorize(&params(&cid, Some("c".to_string()), Some("S512"))), "invalid_request");
    assert!(matches!(srv.authorize(&params(&cid, Some("c".to_string()), Some("plain"))), AuthorizeOutcome::Consent(_)));
}

#[test]
fn consent_denied_or_invalid() {
    let mut srv = server();
    let (cid, _) = register(&mut srv, true, &["rooms:read"]);
    let mut form = ConsentForm {
        user_id: "user-1".to_string(),
        client_id: cid.clone(),
        redirect_uri: "https://cb/".to_string(),
        scope: "rooms:read".to_string(),
        state: None,
        code_challenge: None,
        code_challenge_method: None,
        approved: "false".to_string(),
    };
    let rd = srv.consent(&form, NOW).unwrap();
    assert_eq!(rd.params[0], ("error".to_string(), "access_denied".to_string()));
    assert_eq!(rd.params.len(), 2);
    form.approved = "true".to_string();
    form.scope = "rooms:read laundry".to_string();
    let rd = srv.consent(&form, NOW).unwrap();
    assert_eq!(rd.params[0], ("error".to_string(), "invalid_scope".to_string()));
    form.scope = "rooms:read".to_string();
    let rd = srv.consent(&form, NOW).unwrap();
    assert_eq!(rd.params[0].0, "code");
    let loc = rd.location().unwrap();
    assert!(loc.starts_with("https://cb/?code="));
    assert!(Redirect { uri: "not a url".to_string(), params: vec![] }.location().is_none());
}

#[test]
fn unknown_grant_type_and_client_registration() {
    let mut srv = server();
    let (cid, secret) = register(&mut srv, true, &["rooms:read"]);
    assert_eq!(secret, "");
    let mut req = client_request(&cid, None);
    req.grant_type = "implicit".to_string();
    assert_eq!(srv.token(&req, NOW).err(), Some(AppError::UnsupportedGrantType));
    let bad = srv.create_client(CreateClientRequest {
        name: "x".to_string(),
        redirect_uris: vec![],
        grant_types: vec![],
        scopes: vec!["rooms:read".to_string(), "everything".to_string()],
        is_public: None,
    });
    assert_eq!(bad.err().map(|e| e.code()), Some("invalid_scope"));
    assert!(AuthServer::new(Vec::new()).is_err());
}

fn password_request(client_id: &str, username: &str, password: &str, scope: Option<&str>) -> TokenRequest {
    TokenRequest {
        grant_type: "password".to_string(),
        client_id: client_id.to_string(),
        client_secret: None,
        code: None,
        redirect_uri: None,
        code_verifier: None,
        refresh_token: None,
        scope: scope.map(|s| s.to_string()),
        username: Some(username.to_string()),
        password: Some(password.to_string()),
    }
}

#[test]
fn password_grant_signs_in_registered_users() {
    let mut srv = server();
    let (cid, _) = register(&mut srv, true, &["rooms:read", "rooms:write"]);
    let uid = srv.register_user("test@example.com", "password123").unwrap();
    assert_eq!(uid.len(), 36);
    assert_eq!(srv.register_user("test@example.com", "password456").err(), Some(AppError::Conflict));
    assert_eq!(AppError::Conflict.status(), 409);
    assert_eq!(srv.register_user("   ", "password123").err(), Some(AppError::InvalidRequest));
    assert_eq!(srv.register_user("short@example.com", "pw").err(), Some(AppError::InvalidRequest));
    let resp = srv.token(&password_request(&cid, "test@example.com", "password123", Some("rooms:read")), NOW).unwrap();
    assert_eq!(resp.scope, "rooms:read");
    assert!(resp.refresh_token.is_some());
    let info = srv.extract_and_validate_token(Some(&bearer(&resp.access_token)), NOW).unwrap();
    assert_eq!(info.user_id, Some(uid));
    let wrong = srv.token(&password_request(&cid, "test@example.com", "password124", None), NOW);
    assert_eq!(wrong.err(), Some(AppError::InvalidGrant));
    let nobody = srv.token(&password_request(&cid, "nobody@example.com", "password123", None), NOW);
    assert_eq!(nobody.err(), Some(AppError::InvalidGrant));
    let too_wide = srv.token(&password_request(&cid, "test@example.com", "password123", Some("admin")), NOW);
    assert_eq!(too_wide.err(), Some(AppError::InvalidScope));
    let mut missing = password_request(&cid, "test@example.com", "password123", None);
    missing.password = None;
    assert_eq!(srv.token(&missing, NOW).err(), Some(AppError::InvalidRequest));
}

#[test]
fn issued_tokens_carry_their_owner() {
    let mut srv = server();
    let (cid, resp) = public_login(&mut srv, "rooms:read stats:read");
    let g = cleaner_oauth::tokens::TokenGenerator::new(b"flow-secret".to_vec()).unwrap();
    let a = g.validate_access_token(&resp.access_token, NOW).unwrap();
    assert_eq!(a.sub, "user-1");
    assert_eq!(a.client_id, cid);
    assert_eq!(a.scopes, "rooms:read stats:read");
    assert_eq!(a.exp, NOW + 3600);
    assert_eq!(cleaner_oauth::tokens::hash_token(&a.jti), srv.store.access_tokens.last().unwrap().token_hash);
    let r = g.validate_refresh_token(&resp.refresh_token.unwrap(), NOW).unwrap();
    assert_eq!(r.sub, "user-1");
    assert_eq!(cleaner_oauth::tokens::hash_token(&r.jti), srv.store.refresh_tokens.last().unwrap().token_hash);
    let cc = srv.token(&client_request(&cid, Some("stats:read")), NOW).unwrap();
    assert_eq!(g.validate_access_token(&cc.access_token, NOW).unwrap().sub, cid);
}

#[test]
fn unparsable_scope_claim_is_unauthorized() {
    let mut srv = server();
    let (cid, _) = public_login(&mut srv, "rooms:read");
    let mut claims = serde_json::Map::new();
    claims.insert("sub".to_string(), "user-1".into());
    claims.insert("client_id".to_string(), cid.clone().into());
    claims.insert("scopes".to_string(), "rooms:read sweep".into());
    claims.insert("token_type".to_string(), "access_token".into());
    claims.insert("iat".to_string(), NOW.into());
    claims.insert("exp".to_string(), (NOW + 3600).into());
    claims.insert("jti".to_string(), "forged-id".into());
    let token = jsonwebtoken::encode(
        &jsonwebtoken::Header::default(),
        &claims,
        &jsonwebtoken::EncodingKey::from_secret(b"flow-secret"),
    )
    .unwrap();
    srv.store.access_tokens.push(cleaner_oauth::store::TokenRecord {
        token_hash: cleaner_oauth::tokens::hash_token("forged-id"),
        client_id: cid,
        user_id: Some("user-1".to_string()),
        scopes: cleaner_oauth::scopes::ScopeSet::from_vec(vec![Scope::RoomsRead]),
        expires_at: NOW + 3600,
        created_at: NOW,
        revoked: false,
    });
    assert_eq!(srv.extract_and_validate_token(Some(&bearer(&token)), NOW).err(), Some(AppError::Unauthorized));
}

use cleaner_oauth::error::AppError;
use cleaner_oauth::models::{get_allowed_scopes, validate_scope, Frequency, TokenErrorResponse};

#[test]
fn frequency_names() {
    assert_eq!(Frequency::from_str("weekly"), Some(Frequency::Weekly));
    assert_eq!(Frequency::from_str("yearly"), None);
    for f in [Frequency::Daily, Frequency::Weekly, Frequency::Monthly, Frequency::Custom] {
        assert_eq!(Frequency::from_str(f.as_str()), Some(f));
    }
}

#[test]
fn legacy_scope_whitelist() {
    let allowed = get_allowed_scopes();
    assert_eq!(allowed, vec!["openid", "profile", "email", "offline_access"]);
    assert!(validate_scope(None, &allowed));
    assert!(validate_scope(Some("openid  email"), &allowed));
    assert!(validate_scope(Some(""), &allowed));
    assert!(!validate_scope(Some("openid admin"), &allowed));
}

#[test]
fn error_codes_and_statuses() {
    assert_eq!(AppError::InvalidGrant.code(), "invalid_grant");
    assert_eq!(AppError::InvalidGrant.status(), 400);
    assert_eq!(AppError::InvalidClient.status(), 401);
    assert_eq!(AppError::Unauthorized.status(), 401);
    assert_eq!(AppError::Forbidden.status(), 403);
    assert_eq!(AppError::NotFound.status(), 404);
    assert_eq!(AppError::Internal.status(), 500);
    assert_eq!(AppError::UnsupportedGrantType.code(), "unsupported_grant_type");
    assert_eq!(TokenErrorResponse::from_error(&AppError::InvalidScope).error, "invalid_scope");
}

use ize_service_api::middlewares::auth_guard::{accept_verified_claims, authorization_token, bearer_token, strip_bearer_prefixes};
use ize_service_api::utils::jwt::Claims;

#[test]
fn bearer_header_yields_token() {
    assert_eq!(bearer_token(Some("Bearer abc.def.ghi")), Some("abc.def.ghi".to_string()));
}

#[test]
fn repeated_prefixes_are_all_removed() {
    assert_eq!(bearer_token(Some("Bearer Bearer abc")), Some("abc".to_string()));
    assert_eq!(strip_bearer_prefixes("Bearer Bearer Bearer x"), "x");
    assert_eq!(strip_bearer_prefixes("no prefix"), "no prefix");
}

#[test]
fn empty_token_after_prefix() {
    assert_eq!(bearer_token(Some("Bearer ")), Some(String::new()));
}

#[test]
fn other_schemes_are_not_tokens() {
    assert_eq!(bearer_token(Some("bearer abc")), None);
    assert_eq!(bearer_token(Some("Basic dXNlcjpwYXNz")), None);
    assert_eq!(bearer_token(Some("Bearer")), None);
    assert_eq!(bearer_token(Some("")), None);
    assert_eq!(bearer_token(None), None);
}

#[test]
fn non_ascii_token() {
    assert_eq!(bearer_token(Some("Bearer ทดสอบ")), Some("ทดสอบ".to_string()));
}

#[test]
fn missing_header_is_rejected() {
    let err = authorization_token(None).unwrap_err();
    assert_eq!(err.status, 401);
    assert_eq!(err.error, "Missing authorization header");
    let err = authorization_token(Some("Token abc")).unwrap_err();
    assert_eq!(err.status, 401);
    assert_eq!(err.error, "Missing authorization header");
}

#[test]
fn bearer_header_passes_first_step() {
    assert_eq!(authorization_token(Some("Bearer t0k3n")).unwrap(), "t0k3n");
}

#[test]
fn unverified_token_is_rejected() {
    let err = accept_verified_claims(None).unwrap_err();
    assert_eq!(err.status, 401);
    assert_eq!(err.error, "Invalid or expired token");
}

#[test]
fn verified_claims_are_passed_on() {
    let claims = Claims { sub: "us_1".to_string(), role_id: "ro_user".to_string(), exp: 10, iat: 5 };
    let accepted = accept_verified_claims(Some(Claims { sub: "us_1".to_string(), role_id: "ro_user".to_string(), exp: 10, iat: 5 })).unwrap();
    assert_eq!(accepted, claims);
}

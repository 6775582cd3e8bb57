use ize_service_api::modules::auth::dtos::{LoginRequest, RegisterRequest};
use ize_service_api::modules::auth::services::{
    login_authenticate, login_finish, login_rejection, register_rejection, register_finish, register_prepare, register_with_hash, user_response_at, RegisterStep,
};
use ize_service_api::modules::users::models::{new_user_detail_for, User};
use ize_service_api::utils::password::{hash_password, verify_password};

fn user_with(password_hash: Option<String>, is_active: bool) -> User {
    User {
        id: "us_0000000001".to_string(),
        email: "user@example.com".to_string(),
        password_hash,
        role_id: "ro_user".to_string(),
        google_id: None,
        is_active,
        created_at: 0,
        updated_at: 0,
    }
}

fn register_request() -> RegisterRequest {
    RegisterRequest { email: "user@example.com".to_string(), password: "password123".to_string() }
}

fn login_request(password: &str) -> LoginRequest {
    LoginRequest { email: "user@example.com".to_string(), password: password.to_string() }
}

#[test]
fn register_without_connection() {
    match register_prepare(false, &register_request(), "us_1") {
        RegisterStep::Reply(Err(e)) => assert_eq!(e, "Database connection error"),
        other => panic!("unexpected {:?}", other),
    }
}

#[test]
fn register_prepares_account() {
    match register_prepare(true, &register_request(), "us_0000000001") {
        RegisterStep::Persist(nu) => {
            assert_eq!(nu.id, "us_0000000001");
            assert_eq!(nu.email, "user@example.com");
            assert_eq!(nu.role_id, "ro_user");
            assert_eq!(nu.google_id, None);
            let hash = nu.password_hash.unwrap();
            assert_ne!(hash, "password123");
            assert!(hash.starts_with("$argon2id$v=19$m=19456,t=2,p=1$"));
            assert!(verify_password("password123", &hash));
        },
        other => panic!("unexpected {:?}", other),
    }
}

#[test]
fn register_with_failed_hash() {
    let step = register_with_hash(&register_request(), "us_1", Err(argon2::password_hash::Error::Password));
    match step {
        RegisterStep::Reply(Err(e)) => assert_eq!(e, "Failed to hash password"),
        other => panic!("unexpected {:?}", other),
    }
}

#[test]
fn register_with_given_hash() {
    match register_with_hash(&register_request(), "us_2", Ok("$argon2id$x".to_string())) {
        RegisterStep::Persist(nu) => {
            assert_eq!(nu.id, "us_2");
            assert_eq!(nu.password_hash, Some("$argon2id$x".to_string()));
            assert_eq!(nu.role_id, "ro_user");
        },
        other => panic!("unexpected {:?}", other),
    }
}

#[test]
fn register_finish_reports_account() {
    let user = User { created_at: 1714509000, ..user_with(None, true) };
    let res = register_finish(Some(user)).unwrap();
    assert_eq!(res.status, 201);
    assert_eq!(res.message, "User registered successfully");
    assert_eq!(res.user.id, "us_0000000001");
    assert_eq!(res.user.email, "user@example.com");
    assert_eq!(res.user.role_id, "ro_user");
    assert_eq!(res.user.created_at, "2024-04-30T20:30:00+00:00");
}

#[test]
fn register_finish_reports_failure() {
    assert_eq!(register_finish(None).unwrap_err(), "Registration failed: Email already exists or internal error");
}

#[test]
fn detail_row_for_new_account() {
    assert_eq!(new_user_detail_for(&user_with(None, true)).user_id, "us_0000000001");
}

#[test]
fn user_response_in_thai_time() {
    let resp = user_response_at(&user_with(None, true), 25200);
    assert_eq!(resp.created_at, "1970-01-01T07:00:00+07:00");
}

#[test]
fn login_without_connection() {
    assert_eq!(login_authenticate(false, None, &login_request("x")).unwrap_err(), "Database connection error");
}

#[test]
fn login_unknown_email() {
    assert_eq!(login_authenticate(true, None, &login_request("x")).unwrap_err(), "Invalid email or password");
}

#[test]
fn login_oauth_account() {
    assert_eq!(
        login_authenticate(true, Some(user_with(None, true)), &login_request("x")).unwrap_err(),
        "Please login using your OAuth provider"
    );
}

#[test]
fn login_wrong_password_looks_like_unknown_email() {
    let hash = hash_password("password123").unwrap();
    let wrong = login_authenticate(true, Some(user_with(Some(hash), true)), &login_request("nope")).unwrap_err();
    let unknown = login_authenticate(true, None, &login_request("nope")).unwrap_err();
    assert_eq!(wrong, unknown);
}

#[test]
fn login_disabled_account() {
    let hash = hash_password("password123").unwrap();
    assert_eq!(
        login_authenticate(true, Some(user_with(Some(hash), false)), &login_request("password123")).unwrap_err(),
        "This account has been disabled"
    );
}

#[test]
fn login_disabled_account_with_wrong_password() {
    let hash = hash_password("password123").unwrap();
    assert_eq!(
        login_authenticate(true, Some(user_with(Some(hash), false)), &login_request("bad")).unwrap_err(),
        "Invalid email or password"
    );
}

#[test]
fn registered_account_logs_in() {
    let step = register_prepare(true, &register_request(), "us_0000000001");
    let nu = match step {
        RegisterStep::Persist(nu) => nu,
        other => panic!("unexpected {:?}", other),
    };
    let stored = user_with(nu.password_hash, true);
    let user = login_authenticate(true, Some(stored), &login_request("password123")).unwrap();
    assert_eq!(user.id, "us_0000000001");
}

#[test]
fn login_finish_with_tokens() {
    let res = login_finish(Some(("a.b.c".to_string(), "d.e.f".to_string()))).unwrap();
    assert_eq!(res.status, 200);
    assert_eq!(res.message, "Login successful");
    assert_eq!(res.access_token, "a.b.c");
    assert_eq!(res.refresh_token, "d.e.f");
}

#[test]
fn login_finish_without_tokens() {
    assert_eq!(login_finish(None).unwrap_err(), "Failed to generate tokens");
}

#[test]
fn rejection_bodies() {
    let err = register_rejection("Failed to hash password".to_string());
    assert_eq!((err.status, err.error.as_str()), (400, "Failed to hash password"));
    let err = login_rejection("Invalid email or password".to_string());
    assert_eq!((err.status, err.error.as_str()), (401, "Invalid email or password"));
}

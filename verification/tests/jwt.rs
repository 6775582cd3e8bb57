use ize_service_api::utils::jwt::{claims_at, issue_token_claims, token_claims, ACCESS_TOKEN_LIFETIME_SECONDS, REFRESH_TOKEN_LIFETIME_SECONDS};
use ize_service_api::utils::time::MAX_UNIX_SECONDS;

#[test]
fn claims_at_a_given_time() {
    let (access, refresh) = token_claims("us_0001", "ro_user", 1000);
    assert_eq!(access.sub, "us_0001");
    assert_eq!(access.role_id, "ro_user");
    assert_eq!(access.iat, 1000);
    assert_eq!(access.exp, 4600);
    assert_eq!(refresh.sub, "us_0001");
    assert_eq!(refresh.role_id, "ro_user");
    assert_eq!(refresh.iat, 1000);
    assert_eq!(refresh.exp, 605800);
}

#[test]
fn lifetimes() {
    assert_eq!(ACCESS_TOKEN_LIFETIME_SECONDS, 3600);
    assert_eq!(REFRESH_TOKEN_LIFETIME_SECONDS, 7 * 24 * 3600);
}

#[test]
fn issued_now_share_issue_time() {
    let (access, refresh) = issue_token_claims("us_0002", "ro_admin").unwrap();
    assert_eq!(access.iat, refresh.iat);
    assert_eq!(access.exp, access.iat + 3600);
    assert_eq!(refresh.exp, refresh.iat + 604800);
    assert!(refresh.exp > access.exp);
    assert!(access.iat > 1_600_000_000);
}

#[test]
fn claims_at_a_reading() {
    let (access, refresh) = claims_at("us_0003", "ro_user", 100).unwrap();
    assert_eq!(access.iat, 100);
    assert_eq!(access.exp, 3700);
    assert_eq!(refresh.exp, 604900);
    assert_eq!(refresh.sub, "us_0003");
}

#[test]
fn claims_at_the_end_of_time() {
    assert!(claims_at("us_0003", "ro_user", MAX_UNIX_SECONDS).is_none());
    assert!(claims_at("us_0003", "ro_user", MAX_UNIX_SECONDS - REFRESH_TOKEN_LIFETIME_SECONDS).is_some());
    assert!(claims_at("us_0003", "ro_user", MAX_UNIX_SECONDS - REFRESH_TOKEN_LIFETIME_SECONDS + 1).is_none());
}

use ize_service_api::modules::roles::models::Role;
use ize_service_api::modules::users::models::User;
use ize_service_api::modules::users::services::{
    authorize_role_change, check_new_role, listing_reply, listing_scope, profile_reply, role_change_reply,
    role_change_response, ListScope,
};

fn user(id: &str, created_at: i64) -> User {
    User {
        id: id.to_string(),
        email: format!("{}@example.com", id),
        password_hash: None,
        role_id: "ro_user".to_string(),
        google_id: None,
        is_active: true,
        created_at,
        updated_at: created_at,
    }
}

fn role(name: &str) -> Role {
    Role { id: format!("ro_{}", name), name: name.to_string(), description: None, created_at: 0 }
}

#[test]
fn listing_scope_by_role_name() {
    assert_eq!(listing_scope(true, Some("super_admin".to_string())).unwrap(), ListScope::AllUsers);
    assert_eq!(listing_scope(true, Some("admin".to_string())).unwrap(), ListScope::RegularUsersOnly);
    let err = listing_scope(true, Some("user".to_string())).unwrap_err();
    assert_eq!((err.status, err.error.as_str()), (403, "Access denied"));
    let err = listing_scope(true, None).unwrap_err();
    assert_eq!((err.status, err.error.as_str()), (403, "Role not found"));
    let err = listing_scope(false, Some("super_admin".to_string())).unwrap_err();
    assert_eq!((err.status, err.error.as_str()), (500, "DB Error"));
}

#[test]
fn listing_reply_builds_page() {
    let rows = vec![(user("us_a", 0), role("user")), (user("us_b", 1714509000), role("admin"))];
    let page = listing_reply(Some((rows, 25)), 2, 10).unwrap();
    assert_eq!(page.status, 200);
    assert_eq!(page.message, "Users retrieved successfully");
    assert_eq!(page.data.len(), 2);
    assert_eq!(page.data[0].id, "us_a");
    assert_eq!(page.data[0].email, "us_a@example.com");
    assert_eq!(page.data[0].role_name, "user");
    assert_eq!(page.data[0].created_at, "1970-01-01T07:00:00+07:00");
    assert_eq!(page.data[1].role_name, "admin");
    assert_eq!(page.data[1].created_at, "2024-05-01T03:30:00+07:00");
    assert_eq!(page.meta.total_items, 25);
    assert_eq!(page.meta.total_pages, 3);
    assert_eq!(page.meta.current_page, 2);
    assert_eq!(page.meta.page_size, 10);
}

#[test]
fn listing_reply_query_failure() {
    let err = listing_reply(None, 1, 10).unwrap_err();
    assert_eq!((err.status, err.error.as_str()), (500, "Query failed"));
}

#[test]
fn role_change_requires_super_admin() {
    assert!(authorize_role_change(true, Some("super_admin".to_string())).is_ok());
    let err = authorize_role_change(true, Some("admin".to_string())).unwrap_err();
    assert_eq!((err.status, err.error.as_str()), (403, "Only Super Admin can change user roles"));
    let err = authorize_role_change(true, None).unwrap_err();
    assert_eq!((err.status, err.error.as_str()), (403, "Role not found"));
    let err = authorize_role_change(false, None).unwrap_err();
    assert_eq!((err.status, err.error.as_str()), (500, "DB Error"));
}

#[test]
fn role_change_target_must_exist() {
    assert!(check_new_role(Some("admin".to_string())).is_ok());
    let err = check_new_role(None).unwrap_err();
    assert_eq!((err.status, err.error.as_str()), (400, "Invalid role ID"));
}

#[test]
fn role_change_reply_cases() {
    let resp = role_change_reply(Some(user("us_c", 0))).unwrap();
    assert_eq!(resp.id, "us_c");
    assert_eq!(resp.role_id, "ro_user");
    assert_eq!(resp.created_at, "1970-01-01T07:00:00+07:00");
    let err = role_change_reply(None).unwrap_err();
    assert_eq!((err.status, err.error.as_str()), (404, "User not found"));
    let wrapped = role_change_response(resp);
    assert_eq!(wrapped.status, 200);
    assert_eq!(wrapped.message, "User role updated successfully");
    assert_eq!(wrapped.data.id, "us_c");
}

#[test]
fn profile_reply_cases() {
    let resp = profile_reply(true, Some(user("us_d", 0))).unwrap();
    assert_eq!(resp.status, 200);
    assert_eq!(resp.message, "Profile retrieved successfully");
    assert_eq!(resp.data.email, "us_d@example.com");
    assert_eq!(resp.data.created_at, "1970-01-01T07:00:00+07:00");
    let err = profile_reply(true, None).unwrap_err();
    assert_eq!((err.status, err.error.as_str()), (404, "User not found"));
    let err = profile_reply(false, None).unwrap_err();
    assert_eq!((err.status, err.error.as_str()), (500, "Database connection failed"));
}

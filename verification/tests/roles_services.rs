use ize_service_api::modules::roles::dtos::CreateRoleRequest;
use ize_service_api::modules::roles::models::Role;
use ize_service_api::modules::roles::services::{check_super_admin, create_role_reply, new_role_from_request, role_list_reply, role_response};
use ize_service_api::modules::router::health_report;
use ize_service_api::utils::dtos::GenericResponse;
use ize_service_api::error::error_response;

fn role(id: &str, name: &str) -> Role {
    Role { id: id.to_string(), name: name.to_string(), description: Some("desc".to_string()), created_at: 1714509000 }
}

#[test]
fn super_admin_check() {
    assert!(check_super_admin("ro_super_admin".to_string()).is_ok());
    let err = check_super_admin("ro_admin".to_string()).unwrap_err();
    assert_eq!(err.status, 403);
    assert_eq!(err.error, "Requires super admin privileges");
    assert!(check_super_admin("super_admin".to_string()).is_err());
}

#[test]
fn new_role_name_is_lowercased() {
    let role = new_role_from_request(CreateRoleRequest { name: "Admin_Shop".to_string(), description: Some("ผู้ดูแลร้านค้า".to_string()) });
    assert_eq!(role.name, "admin_shop");
    assert_eq!(role.description, Some("ผู้ดูแลร้านค้า".to_string()));
    let role = new_role_from_request(CreateRoleRequest { name: "ÉDITEUR".to_string(), description: None });
    assert_eq!(role.name, "éditeur");
    assert_eq!(role.description, None);
}

#[test]
fn role_response_in_thai_time() {
    let resp = role_response(&role("ro_x", "x"));
    assert_eq!(resp.id, "ro_x");
    assert_eq!(resp.name, "x");
    assert_eq!(resp.created_at, "2024-05-01T03:30:00+07:00");
}

#[test]
fn create_role_reply_cases() {
    assert_eq!(create_role_reply(Some(role("ro_a", "a"))).unwrap().name, "a");
    let err = create_role_reply(None).unwrap_err();
    assert_eq!(err.status, 400);
    assert_eq!(err.error, "Role name already exists");
}

#[test]
fn role_list_reply_cases() {
    let list = role_list_reply(Some(vec![role("ro_a", "a"), role("ro_b", "b")]));
    assert_eq!(list.len(), 2);
    assert_eq!(list[0].id, "ro_a");
    assert_eq!(list[1].name, "b");
    assert!(role_list_reply(None).is_empty());
    assert!(role_list_reply(Some(vec![])).is_empty());
}

#[test]
fn health_report_contents() {
    let report = health_report("0.1.0");
    assert_eq!(report.status, "ok");
    assert_eq!(report.version, "0.1.0");
    assert_eq!(report.message, "✨ System is healthy and running");
    assert_eq!(report.timestamp.len(), 25);
    assert!(report.timestamp.ends_with("+07:00"));
}

#[test]
fn error_and_generic_bodies() {
    let err = error_response(418, "teapot");
    assert_eq!(err.status, 418);
    assert_eq!(err.error, "teapot");
    let generic = GenericResponse { status: 200, message: "ok".to_string() };
    assert_eq!(generic.status, 200);
}

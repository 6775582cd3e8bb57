use vstd::prelude::*;

verus! {

/// Body of a role creation request.
#[derive(Debug, PartialEq, Eq)]
pub struct CreateRoleRequest {
    pub name: String,
    pub description: Option<String>,
}

/// A role as shown to clients.
#[derive(Debug, PartialEq, Eq)]
pub struct RoleResponse {
    pub id: String,
    pub name: String,
    pub created_at: String,
}

} // verus!

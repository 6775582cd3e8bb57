use vstd::prelude::*;
use crate::error::{error_response, is_error, ErrorResponse};
use crate::modules::roles::dtos::{CreateRoleRequest, RoleResponse};
use crate::modules::roles::models::{NewRole, Role};
use crate::utils::text::{lowercase_of, str_eq, str_to_lowercase};
use crate::utils::time::{format_standard, standard_text, THAI_OFFSET_SECONDS};

verus! {

/// Identifier of the super administrator role, the only one that may manage roles.
pub const SUPER_ADMIN_ROLE_ID: &'static str = "ro_super_admin";

/// Admits only requests whose role identifier is the super administrator's.
pub fn check_super_admin(role_id: String) -> (res: Result<(), ErrorResponse>)
    ensures
        res is Ok <==> role_id@ == SUPER_ADMIN_ROLE_ID@,
        res matches Err(e) ==> is_error(e, 403, "Requires super admin privileges"@),
{
    if !str_eq(role_id.as_str(), SUPER_ADMIN_ROLE_ID) {
        return Err(error_response(403, "Requires super admin privileges"));
    }
    Ok(())
}

/// The role to insert for a creation request: the name in lowercase, the description as given.
pub fn new_role_from_request(req: CreateRoleRequest) -> (role: NewRole)
    ensures
        role.name@ == lowercase_of(req.name@),
        role.description == req.description,
{
    NewRole { name: str_to_lowercase(req.name.as_str()), description: req.description }
}

/// `resp` shows `role`, with the creation time in Thailand time.
pub open spec fn shows_role(resp: RoleResponse, role: Role) -> bool {
    &&& resp.id == role.id
    &&& resp.name == role.name
    &&& resp.created_at@ == standard_text(role.created_at, THAI_OFFSET_SECONDS)
}

/// A role as shown to clients.
pub fn role_response(role: &Role) -> (resp: RoleResponse)
    requires
        role.well_formed(),
    ensures
        shows_role(resp, *role),
{
    RoleResponse {
        id: role.id.clone(),
        name: role.name.clone(),
        created_at: format_standard(role.created_at, THAI_OFFSET_SECONDS),
    }
}

/// The answer to a role creation: the role the store created, or a 400 when the insert failed.
pub fn create_role_reply(created: Option<Role>) -> (res: Result<RoleResponse, ErrorResponse>)
    requires
        created matches Some(r) ==> r.well_formed(),
    ensures
        match created {
            Some(r) => res matches Ok(resp) && shows_role(resp, r),
            None => res matches Err(e) && is_error(e, 400, "Role name already exists"@),
        },
{
    match created {
        Some(role) => Ok(role_response(&role)),
        None => Err(error_response(400, "Role name already exists")),
    }
}

/// The answer to a role listing: every stored role in the store's order, or no roles at all
/// when the query failed.
pub fn role_list_reply(roles: Option<Vec<Role>>) -> (resp: Vec<RoleResponse>)
    requires
        roles matches Some(rs) ==> forall|i: int| 0 <= i < rs.len() ==> (#[trigger] rs[i]).well_formed(),
    ensures
        match roles {
            Some(rs) => resp.len() == rs.len()
                && forall|i: int| 0 <= i < rs.len() ==> shows_role(#[trigger] resp[i], rs[i]),
            None => resp.len() == 0,
        },
{
    let mut resp: Vec<RoleResponse> = Vec::new();
    match roles {
        None => resp,
        Some(rs) => {
            let mut i: usize = 0;
            while i < rs.len()
                invariant
                    i <= rs.len(),
                    resp.len() == i,
                    forall|j: int| 0 <= j < rs.len() ==> (#[trigger] rs[j]).well_formed(),
                    forall|j: int| 0 <= j < i ==> shows_role(#[trigger] resp[j], rs[j]),
                decreases rs.len() - i,
            {
                let r = role_response(&rs[i]);
                resp.push(r);
                i = i + 1;
            }
            resp
        },
    }
}

} // verus!

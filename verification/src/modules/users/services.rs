use vstd::prelude::*;
use crate::error::{error_response, is_error, ErrorResponse};
use crate::modules::auth::dtos::UserResponse;
use crate::modules::auth::services::{shows_user, user_response_at};
use crate::modules::roles::models::Role;
use crate::modules::users::dtos::{UserListItem, UserListResponse, UserProfileResponse};
use crate::modules::users::models::User;
use crate::utils::pagination::{calculate_meta, total_pages_of, PaginatedResponse};
use crate::utils::text::str_eq;
use crate::utils::time::{format_standard, standard_text, THAI_OFFSET_SECONDS};

verus! {

/// Which accounts a requester may list.
#[derive(Debug, PartialEq, Eq)]
pub enum ListScope {
    /// Every account, with its role (super administrators).
    AllUsers,
    /// Only the accounts whose role is named `user` (administrators).
    RegularUsersOnly,
}

/// The listing decision for a requester whose role name is `requester_role` (`None` when the
/// role could not be found).
pub open spec fn listing_scope_of(connected: bool, requester_role: Option<Seq<char>>) -> Result<ListScope, (u16, Seq<char>)> {
    if !connected {
        Err((500u16, "DB Error"@))
    } else {
        match requester_role {
            None => Err((403u16, "Role not found"@)),
            Some(name) => if name == "super_admin"@ {
                Ok(ListScope::AllUsers)
            } else if name == "admin"@ {
                Ok(ListScope::RegularUsersOnly)
            } else {
                Err((403u16, "Access denied"@))
            },
        }
    }
}

/// Decides which accounts the requester may list, from the name of the requester's role.
pub fn listing_scope(connected: bool, requester_role: Option<String>) -> (res: Result<ListScope, ErrorResponse>)
    ensures
        match (res, listing_scope_of(connected, match requester_role { Some(r) => Some(r@), None => None })) {
            (Ok(a), Ok(b)) => a == b,
            (Err(e), Err(m)) => is_error(e, m.0, m.1),
            _ => false,
        },
{
    if !connected {
        return Err(error_response(500, "DB Error"));
    }
    match requester_role {
        None => Err(error_response(403, "Role not found")),
        Some(name) => {
            if str_eq(name.as_str(), "super_admin") {
                Ok(ListScope::AllUsers)
            } else if str_eq(name.as_str(), "admin") {
                Ok(ListScope::RegularUsersOnly)
            } else {
                Err(error_response(403, "Access denied"))
            }
        },
    }
}

/// `item` lists `user` with the name of its `role`, the creation time in Thailand time.
pub open spec fn lists_user(item: UserListItem, user: User, role: Role) -> bool {
    &&& item.id == user.id
    &&& item.email == user.email
    &&& item.role_name == role.name
    &&& item.created_at@ == standard_text(user.created_at, THAI_OFFSET_SECONDS)
}

/// One row of the listing.
pub fn list_item(user: &User, role: &Role) -> (item: UserListItem)
    requires
        user.well_formed(),
    ensures
        lists_user(item, *user, *role),
{
    UserListItem {
        id: user.id.clone(),
        email: user.email.clone(),
        role_name: role.name.clone(),
        created_at: format_standard(user.created_at, THAI_OFFSET_SECONDS),
    }
}

/// The page of the listing built from the rows the store returned with the total count of
/// matching accounts, or the failure of the query.
pub fn listing_reply(rows: Option<(Vec<(User, Role)>, i64)>, page: i64, page_size: i64) -> (res: Result<UserListResponse, ErrorResponse>)
    requires
        rows matches Some(r) ==> forall|i: int| 0 <= i < r.0.len() ==> (#[trigger] r.0[i]).0.well_formed(),
    ensures
        match rows {
            None => res matches Err(e) && is_error(e, 500, "Query failed"@),
            Some(r) => res matches Ok(p) && {
                &&& p.status == 200
                &&& p.message@ == "Users retrieved successfully"@
                &&& p.data.len() == r.0.len()
                &&& forall|i: int| 0 <= i < r.0.len() ==> lists_user(#[trigger] p.data[i], r.0[i].0, r.0[i].1)
                &&& p.meta.total_items == r.1
                &&& p.meta.total_pages == total_pages_of(r.1, page_size)
                &&& p.meta.current_page == page
                &&& p.meta.page_size == page_size
            },
        },
{
    match rows {
        None => Err(error_response(500, "Query failed")),
        Some((users, total_items)) => {
            let mut data: Vec<UserListItem> = Vec::new();
            let mut i: usize = 0;
            while i < users.len()
                invariant
                    i <= users.len(),
                    data.len() == i,
                    forall|j: int| 0 <= j < users.len() ==> (#[trigger] users[j]).0.well_formed(),
                    forall|j: int| 0 <= j < i ==> lists_user(#[trigger] data[j], users[j].0, users[j].1),
                decreases users.len() - i,
            {
                let item = list_item(&users[i].0, &users[i].1);
                data.push(item);
                i = i + 1;
            }
            Ok(PaginatedResponse {
                status: 200,
                message: String::from_str("Users retrieved successfully"),
                data,
                meta: calculate_meta(total_items, page, page_size),
            })
        },
    }
}

/// The role change decision for a requester whose role name is `requester_role`.
pub open spec fn role_change_permission(connected: bool, requester_role: Option<Seq<char>>) -> Result<(), (u16, Seq<char>)> {
    if !connected {
        Err((500u16, "DB Error"@))
    } else {
        match requester_role {
            None => Err((403u16, "Role not found"@)),
            Some(name) => if name == "super_admin"@ {
                Ok(())
            } else {
                Err((403u16, "Only Super Admin can change user roles"@))
            },
        }
    }
}

/// First check of a role change: only a super administrator may change roles.
pub fn authorize_role_change(connected: bool, requester_role: Option<String>) -> (res: Result<(), ErrorResponse>)
    ensures
        match (res, role_change_permission(connected, match requester_role { Some(r) => Some(r@), None => None })) {
            (Ok(_), Ok(_)) => true,
            (Err(e), Err(m)) => is_error(e, m.0, m.1),
            _ => false,
        },
{
    if !connected {
        return Err(error_response(500, "DB Error"));
    }
    match requester_role {
        None => Err(error_response(403, "Role not found")),
        Some(name) => {
            if str_eq(name.as_str(), "super_admin") {
                Ok(())
            } else {
                Err(error_response(403, "Only Super Admin can change user roles"))
            }
        },
    }
}

/// Second check of a role change: the new role must exist (`target_role` is its name, if found).
pub fn check_new_role(target_role: Option<String>) -> (res: Result<(), ErrorResponse>)
    ensures
        target_role is Some <==> res is Ok,
        res matches Err(e) ==> is_error(e, 400, "Invalid role ID"@),
{
    match target_role {
        Some(_) => Ok(()),
        None => Err(error_response(400, "Invalid role ID")),
    }
}

/// Last step of a role change: the account as updated, or a 404 when no account was updated.
pub fn role_change_reply(updated: Option<User>) -> (res: Result<UserResponse, ErrorResponse>)
    requires
        updated matches Some(u) ==> u.well_formed(),
    ensures
        match updated {
            Some(u) => res matches Ok(r) && shows_user(r, u, THAI_OFFSET_SECONDS),
            None => res matches Err(e) && is_error(e, 404, "User not found"@),
        },
{
    match updated {
        Some(user) => Ok(user_response_at(&user, THAI_OFFSET_SECONDS)),
        None => Err(error_response(404, "User not found")),
    }
}

/// The answer to a successful role change.
pub fn role_change_response(user: UserResponse) -> (resp: UserProfileResponse)
    ensures
        resp.status == 200,
        resp.message@ == "User role updated successfully"@,
        resp.data == user,
{
    UserProfileResponse { status: 200, message: String::from_str("User role updated successfully"), data: user }
}

/// The answer to a profile request, from the account found for the token's subject.
pub fn profile_reply(connected: bool, found: Option<User>) -> (res: Result<UserProfileResponse, ErrorResponse>)
    requires
        found matches Some(u) ==> u.well_formed(),
    ensures
        !connected ==> (res matches Err(e) && is_error(e, 500, "Database connection failed"@)),
        connected ==> match found {
            Some(u) => res matches Ok(r) && r.status == 200
                && r.message@ == "Profile retrieved successfully"@ && shows_user(r.data, u, THAI_OFFSET_SECONDS),
            None => res matches Err(e) && is_error(e, 404, "User not found"@),
        },
{
    if !connected {
        return Err(error_response(500, "Database connection failed"));
    }
    match found {
        Some(user) => Ok(UserProfileResponse {
            status: 200,
            message: String::from_str("Profile retrieved successfully"),
            data: user_response_at(&user, THAI_OFFSET_SECONDS),
        }),
        None => Err(error_response(404, "User not found")),
    }
}

/// Only a super administrator can change roles: any other role name, or an unknown role, is refused.
pub proof fn law_only_super_admin_changes_roles(requester_role: Option<Seq<char>>)
    ensures
        role_change_permission(true, requester_role) is Ok <==> requester_role == Some("super_admin"@),
{
}

/// Administrators see only regular users, super administrators see everyone, and every other
/// role is refused the listing.
pub proof fn law_listing_scope_follows_role(name: Seq<char>)
    ensures
        name == "super_admin"@ ==> listing_scope_of(true, Some(name)) == Ok::<ListScope, (u16, Seq<char>)>(ListScope::AllUsers),
        name == "admin"@ ==> listing_scope_of(true, Some(name)) == Ok::<ListScope, (u16, Seq<char>)>(ListScope::RegularUsersOnly),
        name != "super_admin"@ && name != "admin"@ ==> listing_scope_of(true, Some(name)) is Err,
{
    reveal_strlit("super_admin");
    reveal_strlit("admin");
    assert("admin"@.len() == 5);
    assert("super_admin"@.len() == 11);
}

} // verus!

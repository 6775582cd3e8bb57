use vstd::prelude::*;
use crate::modules::auth::dtos::UserResponse;
use crate::utils::pagination::PaginatedResponse;

verus! {

/// One row of the user listing: the role is shown by name.
#[derive(Debug, PartialEq, Eq)]
pub struct UserListItem {
    pub id: String,
    pub email: String,
    pub role_name: String,
    pub created_at: String,
}

/// A page of the user listing.
pub type UserListResponse = PaginatedResponse<UserListItem>;

/// Answer carrying one account.
#[derive(Debug, PartialEq, Eq)]
pub struct UserProfileResponse {
    pub status: u16,
    pub message: String,
    pub data: UserResponse,
}

/// Body of a role change request.
#[derive(Debug, PartialEq, Eq)]
pub struct UpdateUserRoleRequest {
    pub role_id: String,
}

} // verus!

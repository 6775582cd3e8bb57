use vstd::prelude::*;
use crate::utils::time::valid_unix_seconds;

verus! {

/// An account as stored. Times are whole seconds since the Unix epoch.
#[derive(Debug, PartialEq, Eq)]
pub struct User {
    pub id: String,
    pub email: String,
    pub password_hash: Option<String>,
    pub role_id: String,
    pub google_id: Option<String>,
    pub is_active: bool,
    pub created_at: i64,
    pub updated_at: i64,
}

impl User {
    /// Both times lie in the range of instants the service can represent.
    pub open spec fn well_formed(&self) -> bool {
        valid_unix_seconds(self.created_at as int) && valid_unix_seconds(self.updated_at as int)
    }
}

/// The columns given when an account is inserted; the store fills in the rest.
#[derive(Debug, PartialEq, Eq)]
pub struct NewUser {
    pub id: String,
    pub email: String,
    pub password_hash: Option<String>,
    pub role_id: String,
    pub google_id: Option<String>,
}

/// The optional profile details of an account.
#[derive(Debug, PartialEq, Eq)]
pub struct UserDetail {
    pub user_id: String,
    pub first_name: Option<String>,
    pub last_name: Option<String>,
    pub phone_number: Option<String>,
    pub avatar_url: Option<String>,
    pub updated_at: i64,
}

/// The columns given when an empty profile is inserted for an account.
#[derive(Debug, PartialEq, Eq)]
pub struct NewUserDetail {
    pub user_id: String,
}

/// The empty profile row created together with an account.
pub fn new_user_detail_for(user: &User) -> (detail: NewUserDetail)
    ensures
        detail.user_id == user.id,
{
    NewUserDetail { user_id: user.id.clone() }
}

} // verus!

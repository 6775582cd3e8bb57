use vstd::prelude::*;
use crate::utils::time::valid_unix_seconds;

verus! {

/// A role as stored. `created_at` is in whole seconds since the Unix epoch.
#[derive(Debug, PartialEq, Eq)]
pub struct Role {
    pub id: String,
    pub name: String,
    pub description: Option<String>,
    pub created_at: i64,
}

impl Role {
    /// The creation time lies in the range of instants the service can represent.
    pub open spec fn well_formed(&self) -> bool {
        valid_unix_seconds(self.created_at as int)
    }
}

/// The columns given when a role is inserted.
#[derive(Debug, PartialEq, Eq)]
pub struct NewRole {
    pub name: String,
    pub description: Option<String>,
}

} // verus!

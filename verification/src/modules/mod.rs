pub mod auth;
pub mod roles;
pub mod router;
pub mod users;

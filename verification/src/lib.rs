//! Verified core of the identity service: pagination, time formatting,
//! password hashing, token claims, request authorization and the
//! decisions of the account, user and role services.

pub mod error;
pub mod middlewares;
pub mod modules;
pub mod utils;

pub mod auth_guard;

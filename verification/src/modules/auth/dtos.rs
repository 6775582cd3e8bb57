use vstd::prelude::*;

verus! {

/// Body of a registration request.
#[derive(Debug, PartialEq, Eq)]
pub struct RegisterRequest {
    pub email: String,
    pub password: String,
}

/// An account as shown to clients.
#[derive(Debug, PartialEq, Eq)]
pub struct UserResponse {
    pub id: String,
    pub email: String,
    pub role_id: String,
    pub created_at: String,
}

/// Answer to a successful registration.
#[derive(Debug, PartialEq, Eq)]
pub struct RegisterResponse {
    pub status: u16,
    pub message: String,
    pub user: UserResponse,
}

/// Answer to a successful login: the two tokens.
#[derive(Debug, PartialEq, Eq)]
pub struct AuthResponse {
    pub status: u16,
    pub message: String,
    pub access_token: String,
    pub refresh_token: String,
}

/// Body of a login request.
#[derive(Debug, PartialEq, Eq)]
pub struct LoginRequest {
    pub email: String,
    pub password: String,
}

} // verus!

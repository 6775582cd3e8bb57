use vstd::prelude::*;
use crate::error::ErrorResponse;
use crate::modules::auth::dtos::{AuthResponse, LoginRequest, RegisterRequest, RegisterResponse, UserResponse};
use crate::modules::users::models::{NewUser, User};
use crate::utils::password::{
    argon2_accepts, argon2_phc_hash, hash_password, is_argon2id_phc, is_b64_of_sixteen_bytes,
    verify_password, MAX_PASSWORD_BYTES,
};
use crate::utils::time::{format_standard, standard_text, valid_offset_seconds};

verus! {

/// Role given to every account that registers itself.
pub const DEFAULT_ROLE_ID: &'static str = "ro_user";

/// `resp` shows `user`, with the creation time in standard text at `offset`.
pub open spec fn shows_user(resp: UserResponse, user: User, offset: i32) -> bool {
    &&& resp.id == user.id
    &&& resp.email == user.email
    &&& resp.role_id == user.role_id
    &&& resp.created_at@ == standard_text(user.created_at, offset)
}

/// The account as shown to clients, its creation time at `offset`.
pub fn user_response_at(user: &User, offset: i32) -> (resp: UserResponse)
    requires
        user.well_formed(),
        valid_offset_seconds(offset as int),
    ensures
        shows_user(resp, *user, offset),
{
    UserResponse {
        id: user.id.clone(),
        email: user.email.clone(),
        role_id: user.role_id.clone(),
        created_at: format_standard(user.created_at, offset),
    }
}

/// What registration asks of the store next: insert the account (with its empty profile),
/// or answer right away.
#[derive(Debug, PartialEq, Eq)]
pub enum RegisterStep {
    Persist(NewUser),
    Reply(Result<RegisterResponse, String>),
}

/// `new_user` is the account that `req` registers under `user_id` with the stored hash `hash`.
pub open spec fn account_for(new_user: NewUser, req: RegisterRequest, user_id: Seq<char>, hash: String) -> bool {
    &&& new_user.id@ == user_id
    &&& new_user.email == req.email
    &&& new_user.password_hash == Some(hash)
    &&& new_user.role_id@ == DEFAULT_ROLE_ID@
    &&& new_user.google_id is None
}

/// Registration once the password has been hashed: the account to insert, or the hashing failure.
pub fn register_with_hash(
    req: &RegisterRequest,
    user_id: &str,
    hashed: Result<String, argon2::password_hash::Error>,
) -> (step: RegisterStep)
    ensures
        match hashed {
            Ok(h) => step matches RegisterStep::Persist(nu) && account_for(nu, *req, user_id@, h),
            Err(_) => step matches RegisterStep::Reply(Err(e)) && e@ == "Failed to hash password"@,
        },
        step matches RegisterStep::Persist(nu) ==> nu.email@ == req.email@ && nu.id@ == user_id@,
{
    match hashed {
        Ok(hash) => RegisterStep::Persist(
            NewUser {
                id: String::from_str(user_id),
                email: req.email.clone(),
                password_hash: Some(hash),
                role_id: String::from_str(DEFAULT_ROLE_ID),
                google_id: None,
            },
        ),
        Err(_) => RegisterStep::Reply(Err(String::from_str("Failed to hash password"))),
    }
}

/// What registration prepares for the store, as `register_prepare` promises it for a live
/// connection: the account to insert, whose stored hash is a default Argon2id PHC string of
/// the requested password over a fresh 16-byte salt and accepts that password, or the hashing
/// failure.
pub open spec fn registration_prepared(req: RegisterRequest, user_id: Seq<char>, step: RegisterStep) -> bool {
    match step {
        RegisterStep::Persist(nu) => {
            &&& nu.password_hash is Some
            &&& account_for(nu, req, user_id, nu.password_hash->0)
            &&& argon2_accepts(req.password@, nu.password_hash->0@)
            &&& exists|salt: Seq<char>|
                #[trigger] argon2_phc_hash(req.password@, salt) == Some(nu.password_hash->0@)
                    && is_b64_of_sixteen_bytes(salt) && is_argon2id_phc(nu.password_hash->0@, salt)
        },
        RegisterStep::Reply(r) => r matches Err(e) && e@ == "Failed to hash password"@,
    }
}

/// First step of registration, once a store connection was requested: without a connection
/// the answer is a connection error; otherwise the password is hashed with a fresh salt, which
/// succeeds for every password Argon2 accepts (at most `MAX_PASSWORD_BYTES` bytes).
pub fn register_prepare(connected: bool, req: &RegisterRequest, user_id: &str) -> (step: RegisterStep)
    ensures
        !connected ==> (step matches RegisterStep::Reply(Err(e)) && e@ == "Database connection error"@),
        connected ==> registration_prepared(*req, user_id@, step),
        connected && vstd::utf8::encode_utf8(req.password@).len() <= MAX_PASSWORD_BYTES ==> step is Persist,
        step matches RegisterStep::Persist(nu) ==> nu.email@ == req.email@,
{
    if !connected {
        return RegisterStep::Reply(Err(String::from_str("Database connection error")));
    }
    let hashed = hash_password(req.password.as_str());
    register_with_hash(req, user_id, hashed)
}

/// Last step of registration: the account the store created, or the failure of the insert.
pub fn register_finish(created: Option<User>) -> (res: Result<RegisterResponse, String>)
    requires
        created matches Some(u) ==> u.well_formed(),
    ensures
        match created {
            Some(u) => res matches Ok(r) && r.status == 201
                && r.message@ == "User registered successfully"@ && shows_user(r.user, u, 0),
            None => res matches Err(e)
                && e@ == "Registration failed: Email already exists or internal error"@,
        },
{
    match created {
        Some(user) => Ok(RegisterResponse {
            status: 201,
            message: String::from_str("User registered successfully"),
            user: user_response_at(&user, 0),
        }),
        None => Err(String::from_str("Registration failed: Email already exists or internal error")),
    }
}

/// The outcome of checking credentials: the account to issue tokens for, or the message.
/// An unknown email and a wrong password get the same message.
pub open spec fn login_verdict(connected: bool, found: Option<User>, password: Seq<char>) -> Result<User, Seq<char>> {
    if !connected {
        Err("Database connection error"@)
    } else {
        match found {
            None => Err("Invalid email or password"@),
            Some(u) => match u.password_hash {
                None => Err("Please login using your OAuth provider"@),
                Some(h) => if !argon2_accepts(password, h@) {
                    Err("Invalid email or password"@)
                } else if !u.is_active {
                    Err("This account has been disabled"@)
                } else {
                    Ok(u)
                },
            },
        }
    }
}

/// Checks the credentials of a login against the account found by its email, if any.
pub fn login_authenticate(connected: bool, found: Option<User>, req: &LoginRequest) -> (res: Result<User, String>)
    ensures
        match (res, login_verdict(connected, found, req.password@)) {
            (Ok(a), Ok(b)) => a == b,
            (Err(e), Err(m)) => e@ == m,
            _ => false,
        },
        res matches Ok(a) ==> a.is_active && found == Some(a),
        (connected && found is Some && !found->0.is_active)
            ==> (res matches Err(e) && (e@ == "This account has been disabled"@ || e@ == "Invalid email or password"@
                || e@ == "Please login using your OAuth provider"@)),
{
    if !connected {
        return Err(String::from_str("Database connection error"));
    }
    let user = match found {
        Some(u) => u,
        None => {
            return Err(String::from_str("Invalid email or password"));
        },
    };
    let accepted = match &user.password_hash {
        Some(hash) => verify_password(req.password.as_str(), hash.as_str()),
        None => {
            return Err(String::from_str("Please login using your OAuth provider"));
        },
    };
    if !accepted {
        return Err(String::from_str("Invalid email or password"));
    }
    if !user.is_active {
        return Err(String::from_str("This account has been disabled"));
    }
    Ok(user)
}

/// Last step of a login: the issued access and refresh tokens, or the failure to issue them.
pub fn login_finish(tokens: Option<(String, String)>) -> (res: Result<AuthResponse, String>)
    ensures
        match tokens {
            Some(t) => res matches Ok(r) && r.status == 200 && r.message@ == "Login successful"@
                && r.access_token == t.0 && r.refresh_token == t.1,
            None => res matches Err(e) && e@ == "Failed to generate tokens"@,
        },
{
    match tokens {
        Some((access_token, refresh_token)) => Ok(AuthResponse {
            status: 200,
            message: String::from_str("Login successful"),
            access_token,
            refresh_token,
        }),
        None => Err(String::from_str("Failed to generate tokens")),
    }
}

/// The error body of a refused registration: 400 with the service's message.
pub fn register_rejection(message: String) -> (err: ErrorResponse)
    ensures
        err.status == 400,
        err.error == message,
{
    ErrorResponse { status: 400, error: message }
}

/// The error body of a refused login: 401 with the service's message.
pub fn login_rejection(message: String) -> (err: ErrorResponse)
    ensures
        err.status == 401,
        err.error == message,
{
    ErrorResponse { status: 401, error: message }
}

/// An account that registration prepared can log in with the password it registered with,
/// once stored with that hash and active.
pub proof fn law_registered_account_logs_in(
    req: RegisterRequest,
    user_id: Seq<char>,
    step: RegisterStep,
    stored: User,
)
    requires
        registration_prepared(req, user_id, step),
        step matches RegisterStep::Persist(nu) && stored.password_hash == nu.password_hash,
        stored.is_active,
    ensures
        login_verdict(true, Some(stored), req.password@) == Ok::<User, Seq<char>>(stored),
{
}

/// A wrong password is answered exactly as an unknown email, so answers do not reveal which
/// emails have accounts.
pub proof fn law_wrong_password_looks_like_unknown_email(stored: User, password: Seq<char>)
    requires
        stored.password_hash matches Some(h) && !argon2_accepts(password, h@),
    ensures
        login_verdict(true, Some(stored), password) == login_verdict(true, None, password),
{
}

/// Only an active account whose stored hash accepts the password is let in, and it is the
/// account that was found; a disabled account whose password is right is told it is disabled,
/// whatever else it holds (a linked OAuth id, its role), and is never let in.
pub proof fn law_only_active_accounts_log_in(connected: bool, found: Option<User>, password: Seq<char>)
    ensures
        login_verdict(connected, found, password) matches Ok(a) ==> {
            &&& connected
            &&& found == Some(a)
            &&& a.is_active
            &&& a.password_hash is Some
            &&& argon2_accepts(password, a.password_hash->0@)
        },
        (connected && found is Some && !found->0.is_active && found->0.password_hash is Some
            && argon2_accepts(password, found->0.password_hash->0@))
            ==> login_verdict(connected, found, password) == Err::<User, Seq<char>>("This account has been disabled"@),
        (found is Some && !found->0.is_active) ==> login_verdict(connected, found, password) is Err,
{
}

/// Registration stores the account under exactly the email the request gave, as typed, so a
/// login that looks the account up by that email finds it; under the id it was given, with the
/// role `ro_user`, no OAuth id, and the hash it was handed.
pub proof fn law_account_keeps_requested_email(new_user: NewUser, req: RegisterRequest, user_id: Seq<char>, hash: String)
    requires
        account_for(new_user, req, user_id, hash),
    ensures
        new_user.email@ == req.email@,
        new_user.id@ == user_id,
        new_user.role_id@ == "ro_user"@,
        new_user.google_id is None,
        new_user.password_hash == Some(hash),
{
}

/// What registration prepares for a live connection keeps the requested email as typed.
pub proof fn law_prepared_account_keeps_requested_email(req: RegisterRequest, user_id: Seq<char>, step: RegisterStep)
    requires
        registration_prepared(req, user_id, step),
        step is Persist,
    ensures
        step->Persist_0.email@ == req.email@,
        step->Persist_0.id@ == user_id,
        step->Persist_0.role_id@ == "ro_user"@,
{
}

} // verus!

//! Login, setup and account payloads.
//!
//! Password fields exist only on requests. No response ever carries a password or a hash, and the session
//! token travels only in the `Set-Cookie` header, never in a body the page's scripts could read.

use crate::error::{AppError, AppResult};
use crate::models::user::{AuthMode, Role, User};
use crate::util::text::{trim, trim_spec};
use vstd::prelude::*;

verus! {

#[derive(Debug)]
pub struct UserDto {
    pub id: i64,
    pub email: String,
    pub role: Role,
    pub created_at_ms: i64,
    pub two_factor_enabled: bool,
}

impl UserDto {
    /// An account as the page sees it, with whether it signs in with a second factor.
    pub fn new(user: User, two_factor_enabled: bool) -> (dto: Self)
        ensures
            dto.id == user.id,
            dto.email == user.email,
            dto.role == user.role,
            dto.created_at_ms == user.created_at_ms,
            dto.two_factor_enabled == two_factor_enabled,
    {
        UserDto {
            id: user.id,
            email: user.email,
            role: user.role,
            created_at_ms: user.created_at_ms,
            two_factor_enabled,
        }
    }
}

/// What the page needs to decide what to show: the first run question, the login page, or the app.
#[derive(Debug)]
pub struct AuthStateResponse {
    pub mode: AuthMode,
    /// The signed in account, or `None`. Always `None` without accounts.
    pub user: Option<UserDto>,
    /// True between a right password and the code, on an account with two factor sign in.
    pub pending_two_factor: bool,
}

/// Used by both setup and login, which take the same two fields.
#[derive(Debug)]
pub struct CredentialsRequest {
    pub email: String,
    pub password: String,
}

#[derive(Debug)]
pub struct ChangePasswordRequest {
    pub current_password: String,
    pub new_password: String,
}

#[derive(Debug)]
pub struct UserListResponse {
    pub users: Vec<UserDto>,
}

#[derive(Debug)]
pub struct CreateUserRequest {
    pub email: String,
    pub password: String,
    pub role: String,
}

pub const UNKNOWN_ROLE: &'static str = "the role must be admin or listener";

/// The role a request names, surrounding whitespace ignored.
pub open spec fn requested_role(raw: Seq<char>) -> Option<Role> {
    let name = trim_spec(raw);
    if name == "admin"@ {
        Some(Role::Admin)
    } else if name == "listener"@ {
        Some(Role::Listener)
    } else {
        None
    }
}

/// `outcome` is what parsing a requested role gives: the role, or a bad request.
pub open spec fn parsed_role_as(outcome: AppResult<Role>, raw: Seq<char>) -> bool {
    match requested_role(raw) {
        Some(role) => outcome == Ok::<Role, AppError>(role),
        None => outcome matches Err(AppError::BadRequest(m)) && m@ == UNKNOWN_ROLE@,
    }
}

fn parse_role(raw: &str) -> (outcome: AppResult<Role>)
    ensures
        parsed_role_as(outcome, raw@),
{
    let name = trim(raw);
    match Role::parse(name.as_str()) {
        Some(role) => Ok(role),
        None => Err(AppError::bad_request(UNKNOWN_ROLE)),
    }
}

impl CreateUserRequest {
    pub fn parsed_role(&self) -> (outcome: AppResult<Role>)
        ensures
            parsed_role_as(outcome, self.role@),
    {
        parse_role(self.role.as_str())
    }
}

#[derive(Debug)]
pub struct UpdateUserRequest {
    pub role: String,
}

impl UpdateUserRequest {
    pub fn parsed_role(&self) -> (outcome: AppResult<Role>)
        ensures
            parsed_role_as(outcome, self.role@),
    {
        parse_role(self.role.as_str())
    }
}

#[derive(Debug)]
pub struct SetPasswordRequest {
    pub password: String,
}

/// A code from an authenticator app, or a recovery code.
#[derive(Debug)]
pub struct CodeRequest {
    pub code: String,
}

/// Your own password, asked for again before changes to your second factor.
#[derive(Debug)]
pub struct ConfirmPasswordRequest {
    pub password: String,
}

#[derive(Debug)]
pub struct TwoFactorStatusResponse {
    pub enabled: bool,
    pub recovery_codes_left: i64,
}

#[derive(Debug)]
pub struct TwoFactorSetupResponse {
    /// The secret in base32, grouped in fours, for typing into an app that cannot scan.
    pub secret_key: String,
    pub otpauth_uri: String,
    /// An SVG document. The page shows it as an image, so nothing in it can run.
    pub qr_svg: String,
}

/// Recovery codes, sent once, when they are created. Only their hashes are kept.
#[derive(Debug)]
pub struct RecoveryCodesResponse {
    pub recovery_codes: Vec<String>,
}

} // verus!

//! The users API surface: request shapes and the error-to-response
//! mapping.
//!
//! Backend-specific failure payloads (relational store, connection
//! pool, password hashing) stay at the boundary; the variants here
//! carry only what the response mapping reads, and diagnostic detail
//! of server-side failures is never echoed to the caller.

use vstd::prelude::*;
use vstd::string::StringExecFns;

verus! {

/// A new-account request.
pub struct CreateUser {
    pub username: String,
    pub email: String,
    pub password: String,
}

/// A login request.
pub struct UserLogin {
    pub email: String,
    pub password: String,
}

/// A issued session token.
pub struct UserToken {
    pub access_token: String,
    pub token_type: String,
}

/// Everything a users-API call can fail with.
pub enum UsersError {
    InternalServerError,
    UserNotFound,
    InvalidCredentials,
    BadRequest,
    HasNoPosts,
    AlreadyLoggedIn,
    /// A relational-store failure.
    Diesel,
    /// A connection-pool failure.
    PoolError,
    /// A password-hashing failure.
    Argon2,
    /// Field-validation failures, one formatted `path: error` line
    /// each.
    Validator(Vec<String>),
    /// A uniqueness conflict, with its human-readable reason.
    Conflict(String),
}

/// The body of the HTTP response an error maps to.
pub enum ErrorBody {
    /// No body: server-side detail is never echoed.
    Empty,
    /// A human-readable reason.
    Text(String),
    /// A list of reasons, serialised by the boundary as a JSON array.
    Lines(Vec<String>),
}

impl UsersError {
    /// The HTTP status code each error maps to.
    pub open spec fn spec_status_code(&self) -> u16 {
        match self {
            UsersError::UserNotFound => 404,
            UsersError::HasNoPosts => 404,
            UsersError::BadRequest => 400,
            UsersError::Conflict(_) => 409,
            UsersError::InvalidCredentials => 401,
            UsersError::Diesel => 500,
            UsersError::InternalServerError => 500,
            UsersError::Argon2 => 500,
            UsersError::AlreadyLoggedIn => 400,
            UsersError::Validator(_) => 400,
            UsersError::PoolError => 500,
        }
    }

    /// The HTTP status code this error surfaces as.
    pub fn status_code(&self) -> (s: u16)
        ensures
            s == self.spec_status_code(),
    {
        match self {
            UsersError::UserNotFound => 404,
            UsersError::HasNoPosts => 404,
            UsersError::BadRequest => 400,
            UsersError::Conflict(_) => 409,
            UsersError::InvalidCredentials => 401,
            UsersError::Diesel => 500,
            UsersError::InternalServerError => 500,
            UsersError::Argon2 => 500,
            UsersError::AlreadyLoggedIn => 400,
            UsersError::Validator(_) => 400,
            UsersError::PoolError => 500,
        }
    }

    /// The response body this error surfaces as: the human-readable
    /// reason for caller-side errors, the validation lines for a
    /// validation failure, and nothing for server-side failures.
    pub fn body(self) -> (b: ErrorBody)
        ensures
            match self {
                UsersError::UserNotFound => b matches ErrorBody::Text(s) && s@
                    == "user not found"@,
                UsersError::HasNoPosts => b matches ErrorBody::Text(s) && s@
                    == "user has no posts"@,
                UsersError::BadRequest => b matches ErrorBody::Text(s) && s@ == "bad request"@,
                UsersError::Conflict(m) => b == ErrorBody::Text(m),
                UsersError::InvalidCredentials => b matches ErrorBody::Text(s) && s@
                    == "invalid credentials"@,
                UsersError::AlreadyLoggedIn => b matches ErrorBody::Text(s) && s@
                    == "already logged in"@,
                UsersError::Validator(lines) => b == ErrorBody::Lines(lines),
                UsersError::Diesel => b == ErrorBody::Empty,
                UsersError::InternalServerError => b == ErrorBody::Empty,
                UsersError::Argon2 => b == ErrorBody::Empty,
                UsersError::PoolError => b == ErrorBody::Empty,
            },
    {
        match self {
            UsersError::UserNotFound => ErrorBody::Text(String::from_str("user not found")),
            UsersError::HasNoPosts => ErrorBody::Text(String::from_str("user has no posts")),
            UsersError::BadRequest => ErrorBody::Text(String::from_str("bad request")),
            UsersError::Conflict(m) => ErrorBody::Text(m),
            UsersError::InvalidCredentials => ErrorBody::Text(
                String::from_str("invalid credentials"),
            ),
            UsersError::AlreadyLoggedIn => ErrorBody::Text(String::from_str("already logged in")),
            UsersError::Validator(lines) => ErrorBody::Lines(lines),
            UsersError::Diesel => ErrorBody::Empty,
            UsersError::InternalServerError => ErrorBody::Empty,
            UsersError::Argon2 => ErrorBody::Empty,
            UsersError::PoolError => ErrorBody::Empty,
        }
    }
}

} // verus!

//! Error kinds of the authentication core and their HTTP rendering.
use vstd::prelude::*;

verus! {

/// Every failure an operation of this crate can report.
#[derive(Debug, Clone, PartialEq, Eq)]
pub enum RbError {
    AuthUnknownUser,
    AuthBlockedUser,
    AuthInvalidPassword,
    AuthUnauthorized,
    AuthTokenExpired,
    AuthRefreshTokenExpired,
    AuthInvalidRefreshToken,
    AuthMalformedRefreshToken,
    AuthDuplicateRefreshToken,
    // UM = User Management
    UMDuplicateUser,
    UMUnknownUser,
    DbError(&'static str),
    Custom(&'static str),
}

pub type RbResult<T> = Result<T, RbError>;

pub const STATUS_UNAUTHORIZED: u16 = 401;
pub const STATUS_FORBIDDEN: u16 = 403;
pub const STATUS_NOT_FOUND: u16 = 404;
pub const STATUS_CONFLICT: u16 = 409;
pub const STATUS_INTERNAL_SERVER_ERROR: u16 = 500;

/// The HTTP status an error is answered with.
pub open spec fn status_of(e: RbError) -> u16 {
    match e {
        RbError::AuthUnknownUser => STATUS_NOT_FOUND,
        RbError::AuthBlockedUser => STATUS_FORBIDDEN,
        RbError::AuthInvalidPassword
        | RbError::AuthUnauthorized
        | RbError::AuthTokenExpired
        | RbError::AuthRefreshTokenExpired
        | RbError::AuthInvalidRefreshToken
        | RbError::AuthMalformedRefreshToken
        | RbError::AuthDuplicateRefreshToken => STATUS_UNAUTHORIZED,
        RbError::UMDuplicateUser => STATUS_CONFLICT,
        _ => STATUS_INTERNAL_SERVER_ERROR,
    }
}

/// The message shown to the client for an error.
pub open spec fn message_of(e: RbError) -> &'static str {
    match e {
        RbError::AuthUnknownUser => "This user doesn't exist.",
        RbError::AuthBlockedUser => "This user is blocked.",
        RbError::AuthInvalidPassword => "Invalid credentials.",
        RbError::AuthUnauthorized => "You are not authorized to access this resource.",
        RbError::AuthTokenExpired => "This token is not valid anymore.",
        RbError::AuthRefreshTokenExpired => "This refresh token is not valid anymore.",
        RbError::AuthInvalidRefreshToken => "This refresh token is not valid.",
        RbError::AuthMalformedRefreshToken => "This refresh token is malformed.",
        RbError::AuthDuplicateRefreshToken => {
            "This refresh token has already been used. The user has been blocked."
        },
        RbError::UMDuplicateUser => "This user already exists.",
        RbError::Custom(message) => message,
        _ => "",
    }
}

impl RbError {
    /// HTTP status code of this error: 404 for an unknown user, 403 for a
    /// blocked one, 401 for credential and token errors, 409 for a duplicate
    /// user, 500 for everything internal.
    pub fn status(&self) -> (r: u16)
        ensures
            r == status_of(*self),
    {
        // Every entry gets its own line for easy editing later when needed
        match self {
            RbError::AuthUnknownUser => STATUS_NOT_FOUND,
            RbError::AuthBlockedUser => STATUS_FORBIDDEN,
            RbError::AuthInvalidPassword => STATUS_UNAUTHORIZED,
            RbError::AuthUnauthorized => STATUS_UNAUTHORIZED,
            RbError::AuthTokenExpired => STATUS_UNAUTHORIZED,
            RbError::AuthRefreshTokenExpired => STATUS_UNAUTHORIZED,
            RbError::AuthInvalidRefreshToken => STATUS_UNAUTHORIZED,
            RbError::AuthMalformedRefreshToken => STATUS_UNAUTHORIZED,
            RbError::AuthDuplicateRefreshToken => STATUS_UNAUTHORIZED,
            RbError::UMDuplicateUser => STATUS_CONFLICT,
            RbError::Custom(_) => STATUS_INTERNAL_SERVER_ERROR,
            _ => STATUS_INTERNAL_SERVER_ERROR,
        }
    }

    /// Short message shown to the client. Internal failures never echo their
    /// details: a database error gives the empty message.
    pub fn message(&self) -> (r: &'static str)
        ensures
            r == message_of(*self),
    {
        match self {
            RbError::AuthUnknownUser => "This user doesn't exist.",
            RbError::AuthBlockedUser => "This user is blocked.",
            RbError::AuthInvalidPassword => "Invalid credentials.",
            RbError::AuthUnauthorized => "You are not authorized to access this resource.",
            RbError::AuthTokenExpired => "This token is not valid anymore.",
            RbError::AuthRefreshTokenExpired => "This refresh token is not valid anymore.",
            RbError::AuthInvalidRefreshToken => "This refresh token is not valid.",
            RbError::AuthMalformedRefreshToken => "This refresh token is malformed.",
            RbError::AuthDuplicateRefreshToken => {
                "This refresh token has already been used. The user has been blocked."
            },
            RbError::UMDuplicateUser => "This user already exists.",
            RbError::Custom(message) => message,
            _ => "",
        }
    }
}

/// Errors of the plain-text responder: each is answered with a bare status
/// and a short text body.
#[derive(Debug, Clone, Copy, PartialEq, Eq)]
pub enum RBError {
    /// When the login requests an unknown user
    UnknownUser,
    BlockedUser,
    /// Invalid login password.
    InvalidPassword,
    /// When a non-admin user tries to use an admin endpoint
    Unauthorized,
    /// When an expired JWT token is used for auth.
    JWTTokenExpired,
    /// Umbrella error for when something goes wrong whilst creating a token pair
    JWTCreationError,
    PWSaltError,
    AdminCreationError,
}

/// Status and body of the response for an `RBError`.
pub open spec fn rb_response_of(e: RBError) -> (u16, &'static str) {
    match e {
        RBError::UnknownUser => (STATUS_NOT_FOUND, "Unknown user"),
        RBError::BlockedUser => (STATUS_FORBIDDEN, "This user is blocked"),
        RBError::InvalidPassword => (STATUS_UNAUTHORIZED, "Invalid password"),
        RBError::Unauthorized => (STATUS_UNAUTHORIZED, "Unauthorized"),
        RBError::JWTTokenExpired => (STATUS_UNAUTHORIZED, "Token expired"),
        RBError::JWTCreationError => (STATUS_INTERNAL_SERVER_ERROR, "Failed to create tokens."),
        _ => (STATUS_INTERNAL_SERVER_ERROR, "Internal server error"),
    }
}

impl RBError {
    /// The status code and text body this error is answered with.
    pub fn respond_to(&self) -> (r: (u16, &'static str))
        ensures
            r == rb_response_of(*self),
    {
        match self {
            RBError::UnknownUser => (STATUS_NOT_FOUND, "Unknown user"),
            RBError::BlockedUser => (STATUS_FORBIDDEN, "This user is blocked"),
            RBError::InvalidPassword => (STATUS_UNAUTHORIZED, "Invalid password"),
            RBError::Unauthorized => (STATUS_UNAUTHORIZED, "Unauthorized"),
            RBError::JWTTokenExpired => (STATUS_UNAUTHORIZED, "Token expired"),
            RBError::JWTCreationError => (STATUS_INTERNAL_SERVER_ERROR, "Failed to create tokens."),
            _ => (STATUS_INTERNAL_SERVER_ERROR, "Internal server error"),
        }
    }
}

} // verus!

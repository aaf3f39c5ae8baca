use rb::errors::{RBError, RbError};

#[test]
fn status_codes_follow_error_kind() {
    assert_eq!(RbError::AuthUnknownUser.status(), 404);
    assert_eq!(RbError::AuthBlockedUser.status(), 403);
    assert_eq!(RbError::AuthInvalidPassword.status(), 401);
    assert_eq!(RbError::AuthUnauthorized.status(), 401);
    assert_eq!(RbError::AuthTokenExpired.status(), 401);
    assert_eq!(RbError::AuthRefreshTokenExpired.status(), 401);
    assert_eq!(RbError::AuthInvalidRefreshToken.status(), 401);
    assert_eq!(RbError::AuthMalformedRefreshToken.status(), 401);
    assert_eq!(RbError::AuthDuplicateRefreshToken.status(), 401);
    assert_eq!(RbError::UMDuplicateUser.status(), 409);
    assert_eq!(RbError::UMUnknownUser.status(), 500);
    assert_eq!(RbError::DbError("boom").status(), 500);
    assert_eq!(RbError::Custom("boom").status(), 500);
}

#[test]
fn messages_hide_internal_details() {
    assert_eq!(RbError::AuthUnknownUser.message(), "This user doesn't exist.");
    assert_eq!(RbError::AuthBlockedUser.message(), "This user is blocked.");
    assert_eq!(RbError::AuthInvalidPassword.message(), "Invalid credentials.");
    assert_eq!(
        RbError::AuthDuplicateRefreshToken.message(),
        "This refresh token has already been used. The user has been blocked."
    );
    assert_eq!(RbError::AuthMalformedRefreshToken.message(), "This refresh token is malformed.");
    assert_eq!(RbError::UMDuplicateUser.message(), "This user already exists.");
    assert_eq!(RbError::DbError("Couldn't insert refresh token.").message(), "");
    assert_eq!(RbError::Custom("custom text").message(), "custom text");
}

#[test]
fn legacy_errors_respond_with_status_and_body() {
    assert_eq!(RBError::UnknownUser.respond_to(), (404, "Unknown user"));
    assert_eq!(RBError::BlockedUser.respond_to(), (403, "This user is blocked"));
    assert_eq!(RBError::InvalidPassword.respond_to(), (401, "Invalid password"));
    assert_eq!(RBError::Unauthorized.respond_to(), (401, "Unauthorized"));
    assert_eq!(RBError::JWTTokenExpired.respond_to(), (401, "Token expired"));
    assert_eq!(RBError::JWTCreationError.respond_to(), (500, "Failed to create tokens."));
    assert_eq!(RBError::PWSaltError.respond_to(), (500, "Internal server error"));
    assert_eq!(RBError::AdminCreationError.respond_to(), (500, "Internal server error"));
}

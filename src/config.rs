//! Configuration loaded once at startup and shared read-only afterwards.
use vstd::prelude::*;

verus! {

/// Default lifetime of a session token, in seconds.
pub const DEFAULT_SESSION_TOKEN_EXPIRE: i64 = 600;

/// Default lifetime of a refresh token, in seconds: one week.
pub const DEFAULT_REFRESH_TOKEN_EXPIRE: i64 = 604800;

/// Default number of random bytes in a refresh token.
pub const DEFAULT_REFRESH_TOKEN_SIZE: usize = 64;

/// Settings of the session and refresh tokens.
#[derive(Debug, Clone, PartialEq, Eq)]
pub struct RbJwtConf {
    /// The server secret that session tokens are signed with.
    pub key: String,
    /// Number of random bytes in a refresh token.
    pub refresh_token_size: usize,
    /// Lifetime of a refresh token, in seconds.
    pub refresh_token_expire: i64,
    /// Lifetime of a session token, in seconds.
    pub session_token_expire: i64,
}

impl RbJwtConf {
    /// Settings with this secret and the default sizes and lifetimes.
    pub fn with_key(key: String) -> (r: RbJwtConf)
        ensures
            r.key@ == key@,
            r.refresh_token_size == DEFAULT_REFRESH_TOKEN_SIZE,
            r.refresh_token_expire == DEFAULT_REFRESH_TOKEN_EXPIRE,
            r.session_token_expire == DEFAULT_SESSION_TOKEN_EXPIRE,
    {
        RbJwtConf {
            key,
            refresh_token_size: DEFAULT_REFRESH_TOKEN_SIZE,
            refresh_token_expire: DEFAULT_REFRESH_TOKEN_EXPIRE,
            session_token_expire: DEFAULT_SESSION_TOKEN_EXPIRE,
        }
    }
}

/// The whole configuration: the bootstrap administrator and the token
/// settings.
#[derive(Debug, Clone, PartialEq, Eq)]
pub struct RbConfig {
    pub admin_user: String,
    pub admin_pass: String,
    pub jwt: RbJwtConf,
}

} // verus!

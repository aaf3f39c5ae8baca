//! Credential verification and token lifecycle for the blog backend: password
//! hashing, signed session tokens, single-use refresh tokens with replay
//! detection, and the request guard chain that turns a bearer header into an
//! authorization decision.
pub mod auth;
pub mod claims;
pub mod config;
pub mod crypto;
pub mod db;
pub mod errors;
pub mod guards;
pub mod text;

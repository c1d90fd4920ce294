//! Local-password and OIDC authentication: password hashing and session
//! hashes, TOTP, the OIDC drift checks, and the account state machine that
//! the authentication backend drives.
pub mod backend;
pub mod credentials;
pub mod oidc;
pub mod totp;
pub mod claims;

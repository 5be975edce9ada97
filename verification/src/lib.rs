//! Authentication and session-security core of a web backend.
//!
//! The crate establishes user identity through an external OAuth2 identity
//! provider, issues and verifies compact stateless session credentials with
//! multi-key rotation, protects mutating requests with a double-submit CSRF
//! token, throttles authentication endpoints per client address, and resolves
//! the trusted client address from proxy-forwarded headers.

pub mod config;
pub mod cookies;
pub mod csrf;
pub mod errors;
pub mod health;
pub mod ids;
pub mod net;
pub mod oauth;
pub mod rate_limit;
pub mod session;
pub mod text;
pub mod users;

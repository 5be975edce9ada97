//! Failure taxonomy of the authentication core.
//!
//! Configuration problems are startup-fatal; unauthenticated, bad-request,
//! forbidden and throttled failures are client-visible; everything unexpected
//! flattens to a generic internal failure so that no implementation detail
//! leaks to clients.

use vstd::prelude::*;
use vstd::string::StringExecFns;

verus! {

/// One failure class per externally distinguishable outcome.
///
/// `Token` carries a diagnostic for a malformed or expired session credential;
/// `Unauthorized` stands for a credential that no configured key signed.
/// Both serialize as a generic "unauthorized" so that the distinction is
/// visible to the caller's code but not to the network peer.
#[derive(Debug, Clone, PartialEq, Eq)]
pub enum AppError {
    Config(String),
    Token(String),
    Unauthorized,
    BadRequest(String),
    Forbidden(String),
    TooManyRequests,
    Internal,
}

impl AppError {
    /// The HTTP status that this failure class serializes to.
    pub open spec fn spec_status_code(self) -> u16 {
        match self {
            AppError::Config(_) => 500,
            AppError::Internal => 500,
            AppError::Token(_) => 401,
            AppError::Unauthorized => 401,
            AppError::BadRequest(_) => 400,
            AppError::Forbidden(_) => 403,
            AppError::TooManyRequests => 429,
        }
    }

    /// The message that this failure serializes to. Internal-class failures
    /// are always flattened to a generic message; bad-request and forbidden
    /// failures carry their specific, user-actionable message.
    pub open spec fn spec_public_message(self) -> Seq<char> {
        match self {
            AppError::Config(_) => "internal server error"@,
            AppError::Internal => "internal server error"@,
            AppError::Token(_) => "unauthorized"@,
            AppError::Unauthorized => "unauthorized"@,
            AppError::BadRequest(m) => m@,
            AppError::Forbidden(m) => m@,
            AppError::TooManyRequests => "too many requests"@,
        }
    }

    pub fn status_code(&self) -> (r: u16)
        ensures
            r == self.spec_status_code(),
    {
        match self {
            AppError::Config(_) => 500,
            AppError::Internal => 500,
            AppError::Token(_) => 401,
            AppError::Unauthorized => 401,
            AppError::BadRequest(_) => 400,
            AppError::Forbidden(_) => 403,
            AppError::TooManyRequests => 429,
        }
    }

    pub fn public_message(&self) -> (r: String)
        ensures
            r@ == self.spec_public_message(),
    {
        match self {
            AppError::Config(_) => String::from_str("internal server error"),
            AppError::Internal => String::from_str("internal server error"),
            AppError::Token(_) => String::from_str("unauthorized"),
            AppError::Unauthorized => String::from_str("unauthorized"),
            AppError::BadRequest(m) => m.clone(),
            AppError::Forbidden(m) => m.clone(),
            AppError::TooManyRequests => String::from_str("too many requests"),
        }
    }
}

} // verus!

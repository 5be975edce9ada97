use keyflow::errors::AppError;
use keyflow::health::health;

#[test]
fn health_reports_ok() {
    assert_eq!(health().status, "ok");
}

#[test]
fn status_codes_follow_the_taxonomy() {
    assert_eq!(AppError::Config("x".to_string()).status_code(), 500);
    assert_eq!(AppError::Internal.status_code(), 500);
    assert_eq!(AppError::Token("x".to_string()).status_code(), 401);
    assert_eq!(AppError::Unauthorized.status_code(), 401);
    assert_eq!(AppError::BadRequest("x".to_string()).status_code(), 400);
    assert_eq!(AppError::Forbidden("x".to_string()).status_code(), 403);
    assert_eq!(AppError::TooManyRequests.status_code(), 429);
}

#[test]
fn internal_failures_flatten_to_a_generic_message() {
    assert_eq!(AppError::Config("secret detail".to_string()).public_message(), "internal server error");
    assert_eq!(AppError::Internal.public_message(), "internal server error");
    assert_eq!(AppError::Token("why".to_string()).public_message(), "unauthorized");
    assert_eq!(AppError::Unauthorized.public_message(), "unauthorized");
    assert_eq!(AppError::TooManyRequests.public_message(), "too many requests");
}

#[test]
fn client_failures_keep_their_message() {
    assert_eq!(AppError::BadRequest("invalid oauth state".to_string()).public_message(), "invalid oauth state");
    assert_eq!(AppError::Forbidden("csrf token mismatch".to_string()).public_message(), "csrf token mismatch");
}

use keyflow::cookies::SameSitePolicy;
use keyflow::csrf::{
    build_csrf_cookie, ensure_csrf_cookie, expire_csrf_cookie, issue_csrf_cookie, verify_csrf,
    HeaderField, CSRF_COOKIE,
};
use keyflow::errors::AppError;

#[test]
fn issued_token_round_trips_through_verify() {
    let (cookie, token) = issue_csrf_cookie(true);
    assert_eq!(cookie.name, CSRF_COOKIE);
    assert_eq!(cookie.value, token);
    let header = HeaderField::Text(token.clone());
    assert_eq!(verify_csrf(Some(&token), &header), Ok(()));
}

#[test]
fn token_is_forty_three_urlsafe_characters() {
    let (_, token) = issue_csrf_cookie(false);
    assert_eq!(token.len(), 43);
    assert!(token.chars().all(|c| c.is_ascii_alphanumeric() || c == '-' || c == '_'));
}

#[test]
fn two_issued_tokens_differ() {
    let (_, a) = issue_csrf_cookie(true);
    let (_, b) = issue_csrf_cookie(true);
    assert_ne!(a, b);
}

#[test]
fn single_trailing_character_difference_fails() {
    let cookie = String::from("abcdefgh");
    let header = HeaderField::Text(String::from("abcdefgX"));
    match verify_csrf(Some(&cookie), &header) {
        Err(AppError::Forbidden(m)) => assert_eq!(m, "csrf token mismatch"),
        other => panic!("unexpected: {:?}", other),
    }
}

#[test]
fn absent_header_with_present_cookie_is_forbidden_not_unauthorized() {
    let cookie = String::from("abcdefgh");
    match verify_csrf(Some(&cookie), &HeaderField::Missing) {
        Err(AppError::Forbidden(m)) => {
            assert_eq!(m, "missing csrf header");
            assert_eq!(AppError::Forbidden(m).status_code(), 403);
        },
        other => panic!("unexpected: {:?}", other),
    }
}

#[test]
fn unreadable_header_is_forbidden() {
    let cookie = String::from("abcdefgh");
    match verify_csrf(Some(&cookie), &HeaderField::Opaque) {
        Err(AppError::Forbidden(m)) => assert_eq!(m, "invalid csrf header"),
        other => panic!("unexpected: {:?}", other),
    }
}

#[test]
fn missing_cookie_is_forbidden() {
    let header = HeaderField::Text(String::from("abcdefgh"));
    match verify_csrf(None, &header) {
        Err(AppError::Forbidden(m)) => assert_eq!(m, "missing csrf cookie"),
        other => panic!("unexpected: {:?}", other),
    }
}

#[test]
fn ensure_keeps_an_existing_token() {
    let existing = String::from("already-issued-token");
    let (cookie, token) = ensure_csrf_cookie(Some(&existing), true);
    assert!(cookie.is_none());
    assert_eq!(token, existing);
}

#[test]
fn ensure_issues_when_absent() {
    let (cookie, token) = ensure_csrf_cookie(None, false);
    let cookie = cookie.expect("a fresh cookie");
    assert_eq!(cookie.value, token);
    assert_eq!(token.len(), 43);
}

#[test]
fn cookie_is_script_readable_and_secure_matched() {
    let (secure_cookie, _) = issue_csrf_cookie(true);
    assert!(!secure_cookie.http_only);
    assert!(secure_cookie.secure);
    assert_eq!(secure_cookie.same_site, SameSitePolicy::CrossSite);
    assert_eq!(secure_cookie.path, "/");

    let made = build_csrf_cookie("tok", false);
    assert!(!made.http_only);
    assert!(!made.secure);
    assert_eq!(made.same_site, SameSitePolicy::Lax);
}

#[test]
fn expire_directive_clears_the_cookie() {
    let gone = expire_csrf_cookie(true);
    assert_eq!(gone.name, CSRF_COOKIE);
    assert_eq!(gone.value, "");
    assert_eq!(gone.max_age_seconds, Some(0));
    assert!(gone.expires_offset_seconds.unwrap() < 0);
    assert!(!gone.http_only);
}

use keyflow::csrf::HeaderField;
use keyflow::errors::AppError;
use keyflow::ids::UserId;
use keyflow::net::IpAddress;
use keyflow::oauth::{
    auth_gate, callback_establish, callback_validate, clear_transient_cookies, login_redirect,
    logout_response, provider_failure, session_user_id, OAUTH_PKCE_COOKIE, OAUTH_STATE_COOKIE,
    SESSION_COOKIE,
};
use keyflow::rate_limit::RateLimiter;
use keyflow::session::SessionSigner;

const KEY: &str = "0123456789abcdef0123456789abcdef";

fn signer() -> SessionSigner {
    SessionSigner::new(&vec![KEY.to_string()]).unwrap()
}

#[test]
fn end_to_end_login_flow_establishes_session() {
    let mut limiter = RateLimiter::new(60, 10);
    let peer = IpAddress::V4(0x7f000001);
    let now_ms = 1000u64;

    // initiate: rate limit gate, then custody cookies and the redirect
    assert!(auth_gate(&mut limiter, peer, None, None, now_ms).is_ok());
    let nonce = String::from("random-state-nonce");
    let verifier = String::from("random-pkce-verifier");
    let auth_url = String::from("https://github.com/login/oauth/authorize?state=random-state-nonce");
    let login = login_redirect(&nonce, &verifier, &auth_url, true);
    assert_eq!(login.state_cookie.name, OAUTH_STATE_COOKIE);
    assert_eq!(login.state_cookie.value, nonce);
    assert!(login.state_cookie.http_only);
    assert_eq!(login.pkce_cookie.name, OAUTH_PKCE_COOKIE);
    assert_eq!(login.pkce_cookie.value, verifier);
    assert_eq!(login.redirect_url, auth_url);

    // callback with the provider echoing the same state
    assert!(auth_gate(&mut limiter, peer, None, None, now_ms + 1).is_ok());
    let released = callback_validate(
        Some(&login.state_cookie.value),
        Some(&login.pkce_cookie.value),
        &nonce,
    )
    .unwrap();
    assert_eq!(released, verifier);

    // exchange and upsert are external; establishing the session is not
    let signer = signer();
    let user = UserId(0x123456789abcdef0123456789abcdef0u128);
    let now = 1_700_000_000i64;
    let frontend = String::from("https://app.example.test");
    let out = callback_establish(&signer, user, now, true, &frontend).unwrap();
    assert_eq!(out.clear_state_cookie.name, OAUTH_STATE_COOKIE);
    assert_eq!(out.clear_state_cookie.value, "");
    assert_eq!(out.clear_pkce_cookie.name, OAUTH_PKCE_COOKIE);
    assert_eq!(out.session_cookie.name, SESSION_COOKIE);
    assert!(out.session_cookie.http_only);
    assert_eq!(out.csrf_cookie.value, out.csrf_token);
    assert_eq!(out.csrf_token.len(), 43);
    assert_eq!(out.redirect_url, frontend);

    // the session cookie's credential identifies the user
    let claims = signer.verify_at(&out.session_cookie.value, now).unwrap();
    assert_eq!(claims.sub, user);

    // and the authenticated-context extraction accepts it
    let got = session_user_id(Some(&out.session_cookie.value), &signer, now).unwrap();
    assert_eq!(got, user);
}

#[test]
fn state_mismatch_rejects_before_any_exchange() {
    let stored = String::from("stored-nonce");
    let verifier = String::from("verifier");
    let echoed = String::from("attacker-nonce");
    match callback_validate(Some(&stored), Some(&verifier), &echoed) {
        Err(AppError::BadRequest(m)) => assert_eq!(m, "invalid oauth state"),
        other => panic!("unexpected: {:?}", other),
    }
}

#[test]
fn missing_transient_cookies_reject() {
    let state = String::from("s");
    match callback_validate(None, Some(&state), &state) {
        Err(AppError::BadRequest(m)) => assert_eq!(m, "missing oauth state"),
        other => panic!("unexpected: {:?}", other),
    }
    match callback_validate(Some(&state), None, &state) {
        Err(AppError::BadRequest(m)) => assert_eq!(m, "missing pkce verifier"),
        other => panic!("unexpected: {:?}", other),
    }
}

#[test]
fn logout_with_valid_csrf_clears_both_cookies() {
    let signer = signer();
    let user = UserId(77);
    let now = 1_700_000_000i64;
    let token = signer.issue_at(user, now).unwrap();
    let csrf = String::from("csrf-token-value");
    let header = HeaderField::Text(csrf.clone());

    let out = logout_response(Some(&token), Some(&csrf), &header, &signer, now, true).unwrap();
    assert_eq!(out.clear_session_cookie.name, SESSION_COOKIE);
    assert_eq!(out.clear_session_cookie.value, "");
    assert_eq!(out.clear_session_cookie.max_age_seconds, Some(0));
    assert!(out.clear_session_cookie.expires_offset_seconds.unwrap() < 0);
    assert_eq!(out.clear_csrf_cookie.value, "");
    assert_eq!(out.clear_csrf_cookie.max_age_seconds, Some(0));
    assert_eq!(out.audited_user, Some(user));
}

#[test]
fn logout_without_csrf_header_is_forbidden_and_session_stays_valid() {
    let signer = signer();
    let user = UserId(78);
    let now = 1_700_000_000i64;
    let token = signer.issue_at(user, now).unwrap();
    let csrf = String::from("csrf-token-value");

    match logout_response(Some(&token), Some(&csrf), &HeaderField::Missing, &signer, now, true) {
        Err(AppError::Forbidden(m)) => assert_eq!(m, "missing csrf header"),
        other => panic!("unexpected: {:?}", other),
    }
    // nothing was cleared: the credential still verifies
    assert!(signer.verify_at(&token, now).is_ok());
}

#[test]
fn logout_audits_nothing_for_an_invalid_session() {
    let signer = signer();
    let csrf = String::from("c");
    let header = HeaderField::Text(csrf.clone());
    let bogus = String::from("not-a-token");
    let out = logout_response(Some(&bogus), Some(&csrf), &header, &signer, 0, false).unwrap();
    assert_eq!(out.audited_user, None);
}

#[test]
fn session_extraction_requires_the_cookie() {
    let signer = signer();
    match session_user_id(None, &signer, 0) {
        Err(AppError::Unauthorized) => (),
        other => panic!("unexpected: {:?}", other),
    }
}

#[test]
fn provider_failure_reflects_the_status() {
    match provider_failure(502) {
        AppError::BadRequest(m) => assert_eq!(m, "github api error: 502"),
        other => panic!("unexpected: {:?}", other),
    }
    match provider_failure(7) {
        AppError::BadRequest(m) => assert_eq!(m, "github api error: 7"),
        other => panic!("unexpected: {:?}", other),
    }
}

#[test]
fn failed_callback_clearing_directives() {
    let (clear_state, clear_pkce) = clear_transient_cookies(true);
    assert_eq!(clear_state.name, OAUTH_STATE_COOKIE);
    assert_eq!(clear_state.value, "");
    assert_eq!(clear_state.max_age_seconds, Some(0));
    assert!(clear_state.expires_offset_seconds.unwrap() < 0);
    assert!(clear_state.http_only);
    assert_eq!(clear_pkce.name, OAUTH_PKCE_COOKIE);
    assert_eq!(clear_pkce.value, "");
    assert_eq!(clear_pkce.max_age_seconds, Some(0));
    assert!(clear_pkce.http_only);
}

#[test]
fn establish_fails_only_on_clock_overflow() {
    let signer = signer();
    let frontend = String::from("https://app.example.test");
    match callback_establish(&signer, UserId(1), i64::MAX - 10, true, &frontend) {
        Err(AppError::Internal) => (),
        other => panic!("unexpected: {:?}", other),
    }
    assert!(callback_establish(&signer, UserId(1), 1_700_000_000, true, &frontend).is_ok());
}

#[test]
fn auth_gate_throttles_by_resolved_address() {
    let mut limiter = RateLimiter::new(1, 1);
    let peer = IpAddress::V4(0x0A000005);
    let xff = String::from("203.0.113.7");
    assert!(auth_gate(&mut limiter, peer, Some(&xff), None, 0).is_ok());
    // same forwarded client, different peer: still over the cap
    let other_peer = IpAddress::V4(0x0A000006);
    match auth_gate(&mut limiter, other_peer, Some(&xff), None, 1) {
        Err(AppError::TooManyRequests) => (),
        other => panic!("unexpected: {:?}", other),
    }
    // a different client is unaffected
    assert!(auth_gate(&mut limiter, other_peer, None, None, 2).is_ok());
}

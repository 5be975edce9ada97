use keyflow::config::{cookie_security_policy, parse_signing_keys};
use keyflow::errors::AppError;

const LONG_A: &str = "aaaaaaaaaaaaaaaaaaaaaaaaaaaaaaaa";
const LONG_B: &str = "bbbbbbbbbbbbbbbbbbbbbbbbbbbbbbbb";

#[test]
fn comma_separated_keys_are_split_and_trimmed() {
    let raw = format!(" {} , {} ,", LONG_A, LONG_B);
    let keys = parse_signing_keys(Some(&raw), None).unwrap();
    assert_eq!(keys, vec![LONG_A.to_string(), LONG_B.to_string()]);
}

#[test]
fn legacy_single_key_is_used_as_is() {
    let legacy = LONG_A.to_string();
    let keys = parse_signing_keys(None, Some(&legacy)).unwrap();
    assert_eq!(keys, vec![LONG_A.to_string()]);
}

#[test]
fn list_takes_precedence_over_legacy() {
    let raw = LONG_B.to_string();
    let legacy = LONG_A.to_string();
    let keys = parse_signing_keys(Some(&raw), Some(&legacy)).unwrap();
    assert_eq!(keys, vec![LONG_B.to_string()]);
}

#[test]
fn missing_configuration_is_fatal() {
    match parse_signing_keys(None, None) {
        Err(AppError::Config(m)) => {
            assert_eq!(m, "SESSION_SIGNING_KEY or SESSION_SIGNING_KEYS missing")
        }
        other => panic!("unexpected: {:?}", other),
    }
}

#[test]
fn empty_list_is_fatal() {
    let raw = String::from(" , ,");
    match parse_signing_keys(Some(&raw), None) {
        Err(AppError::Config(m)) => assert_eq!(m, "no session signing keys provided"),
        other => panic!("unexpected: {:?}", other),
    }
}

#[test]
fn short_key_is_fatal() {
    let raw = format!("{},tooshort", LONG_A);
    match parse_signing_keys(Some(&raw), None) {
        Err(AppError::Config(m)) => assert_eq!(
            m,
            "all session signing keys must be at least 32 characters for HMAC signing"
        ),
        other => panic!("unexpected: {:?}", other),
    }
}

#[test]
fn https_base_url_yields_secure_cookies() {
    let url = String::from("https://example.test");
    assert_eq!(cookie_security_policy(&url, false), Ok(true));
}

#[test]
fn insecure_base_url_needs_explicit_override() {
    let url = String::from("http://localhost:8080");
    assert!(matches!(
        cookie_security_policy(&url, false),
        Err(AppError::Config(_))
    ));
    assert_eq!(cookie_security_policy(&url, true), Ok(false));
}

use keyflow::errors::AppError;
use keyflow::ids::UserId;
use keyflow::session::SessionSigner;

fn signer_with(keys: &[&str]) -> SessionSigner {
    let keys: Vec<String> = keys.iter().map(|k| k.to_string()).collect();
    SessionSigner::new(&keys).unwrap()
}

const KEY_A: &str = "aaaaaaaaaaaaaaaaaaaaaaaaaaaaaaaa";
const KEY_B: &str = "bbbbbbbbbbbbbbbbbbbbbbbbbbbbbbbb";
const KEY_C: &str = "cccccccccccccccccccccccccccccccc";

#[test]
fn rejects_empty_key_list() {
    let keys: Vec<String> = Vec::new();
    match SessionSigner::new(&keys) {
        Err(AppError::Config(m)) => assert_eq!(m, "no session signing keys configured"),
        other => panic!("unexpected: {:?}", other),
    }
}

#[test]
fn verify_of_issued_token_returns_subject() {
    let signer = signer_with(&[KEY_A]);
    let id = UserId(0x550e8400_e29b_41d4_a716_446655440000u128);
    let now = 1_700_000_000i64;
    let token = signer.issue_at(id, now).unwrap();
    let claims = signer.verify_at(&token, now).unwrap();
    assert_eq!(claims.sub, id);
    assert_eq!(claims.exp, now + 43_200);
}

#[test]
fn issue_and_verify_with_real_clock() {
    let signer = signer_with(&[KEY_A, KEY_B]);
    let id = UserId(42);
    let token = signer.issue(id).unwrap();
    let claims = signer.verify(&token).unwrap();
    assert_eq!(claims.sub, id);
}

#[test]
fn expired_token_fails_distinctly_from_unknown_key() {
    let signer = signer_with(&[KEY_A]);
    let id = UserId(7);
    let issued_at = 1_700_000_000i64;
    let token = signer.issue_at(id, issued_at).unwrap();

    // past expiration: a token-class failure naming the expiration
    let late = issued_at + 43_200;
    match signer.verify_at(&token, late) {
        Err(AppError::Token(m)) => assert_eq!(m, "expired session token"),
        other => panic!("unexpected: {:?}", other),
    }

    // unknown key: the generic unauthenticated failure
    let stranger = signer_with(&[KEY_C]);
    match stranger.verify_at(&token, issued_at) {
        Err(AppError::Unauthorized) => (),
        other => panic!("unexpected: {:?}", other),
    }
}

#[test]
fn token_signed_with_second_key_still_verifies() {
    let old_signer = signer_with(&[KEY_B]);
    let id = UserId(99);
    let now = 1_700_000_000i64;
    let token = old_signer.issue_at(id, now).unwrap();

    // after rotation KEY_A signs, KEY_B is retained for verification
    let rotated = signer_with(&[KEY_A, KEY_B]);
    let claims = rotated.verify_at(&token, now).unwrap();
    assert_eq!(claims.sub, id);
}

#[test]
fn expiration_boundary_is_strict() {
    let signer = signer_with(&[KEY_A]);
    let id = UserId(1);
    let now = 1_700_000_000i64;
    let token = signer.issue_at(id, now).unwrap();
    // valid strictly before the expiration instant
    assert!(signer.verify_at(&token, now + 43_199).is_ok());
    // not valid at the expiration instant itself
    assert!(signer.verify_at(&token, now + 43_200).is_err());
}

#[test]
fn malformed_token_is_a_token_failure() {
    let signer = signer_with(&[KEY_A]);
    let garbled = String::from("not-a-session-token");
    match signer.verify_at(&garbled, 1_700_000_000) {
        Err(AppError::Token(m)) => assert_eq!(m, "malformed session token"),
        other => panic!("unexpected: {:?}", other),
    }
}

#[test]
fn tampered_token_does_not_verify() {
    let signer = signer_with(&[KEY_A]);
    let id = UserId(5);
    let now = 1_700_000_000i64;
    let token = signer.issue_at(id, now).unwrap();
    let mut tampered = token.clone();
    // flip the final signature character
    let last = tampered.pop().unwrap();
    tampered.push(if last == 'A' { 'B' } else { 'A' });
    assert!(signer.verify_at(&tampered, now).is_err());
}

#[test]
fn issue_overflow_is_internal() {
    let signer = signer_with(&[KEY_A]);
    match signer.issue_at(UserId(1), i64::MAX - 100) {
        Err(AppError::Internal) => (),
        other => panic!("unexpected: {:?}", other),
    }
}

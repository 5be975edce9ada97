use keyflow::errors::AppError;
use keyflow::ids::{format_user_id, parse_user_id, UserId};
use keyflow::net::IpAddress;
use keyflow::text::to_chars;
use keyflow::users::{normalize_profile, CurrentUser, GitHubProfile, PublicUser, User};

fn chars_to_string(v: Vec<char>) -> String {
    v.into_iter().collect()
}

fn sample_user(role: &str) -> User {
    User {
        id: UserId(0x550e8400_e29b_41d4_a716_446655440000u128),
        github_id: 12345,
        login: "octo".to_string(),
        name: Some("Octo Cat".to_string()),
        avatar_url: Some("https://avatars.example/octo".to_string()),
        email: Some("octo@example.com".to_string()),
        role: role.to_string(),
        created_at: 1_600_000_000,
        updated_at: 1_700_000_000,
    }
}

#[test]
fn identifier_formats_to_canonical_text() {
    let id = UserId(0x550e8400_e29b_41d4_a716_446655440000u128);
    let text = chars_to_string(format_user_id(id));
    assert_eq!(text, "550e8400-e29b-41d4-a716-446655440000");
}

#[test]
fn identifier_parses_hyphenated_and_plain_forms() {
    let id = UserId(0x550e8400_e29b_41d4_a716_446655440000u128);
    let hyphenated = to_chars("550e8400-e29b-41d4-a716-446655440000");
    assert_eq!(parse_user_id(&hyphenated), Some(id));
    let plain = to_chars("550e8400e29b41d4a716446655440000");
    assert_eq!(parse_user_id(&plain), Some(id));
    let upper = to_chars("550E8400-E29B-41D4-A716-446655440000");
    assert_eq!(parse_user_id(&upper), Some(id));
}

#[test]
fn identifier_rejects_malformed_text() {
    assert_eq!(parse_user_id(&to_chars("550e8400e29b41d4a71644665544000")), None);
    assert_eq!(parse_user_id(&to_chars("550e8400-e29b-41d4-a716-44665544000g")), None);
    assert_eq!(parse_user_id(&to_chars("550e8400+e29b+41d4+a716+446655440000")), None);
    assert_eq!(parse_user_id(&to_chars("")), None);
}

#[test]
fn identifier_round_trips() {
    let id = UserId(u128::MAX - 12345);
    let text = format_user_id(id);
    assert_eq!(parse_user_id(&text), Some(id));
}

#[test]
fn normalized_profile_lowercases_email_only() {
    let profile = GitHubProfile {
        id: 7,
        login: "MixedCase".to_string(),
        name: Some("Name".to_string()),
        avatar_url: None,
        email: Some("Octo@Example.COM".to_string()),
    };
    let n = normalize_profile(&profile);
    assert_eq!(n.id, 7);
    assert_eq!(n.login, "MixedCase");
    assert_eq!(n.name.as_deref(), Some("Name"));
    assert_eq!(n.avatar_url, None);
    assert_eq!(n.email.as_deref(), Some("octo@example.com"));
}

#[test]
fn public_projection_drops_provider_fields() {
    let user = sample_user("user");
    let public = PublicUser::from(user.clone());
    assert_eq!(public.id, user.id);
    assert_eq!(public.login, user.login);
    assert_eq!(public.email, user.email);
    assert_eq!(public.role, user.role);
}

#[test]
fn role_check_is_exact_equality() {
    let admin = CurrentUser::new(sample_user("admin"), Some(IpAddress::V4(1)));
    assert!(admin.require_role("admin").is_ok());
    assert!(admin.require_admin().is_ok());

    let plain = CurrentUser::new(sample_user("user"), None);
    assert!(plain.require_role("user").is_ok());
    match plain.require_admin() {
        Err(AppError::Unauthorized) => (),
        other => panic!("unexpected: {:?}", other),
    }
    match plain.require_role("Admin") {
        Err(AppError::Unauthorized) => (),
        other => panic!("unexpected: {:?}", other),
    }
}

#[test]
fn current_user_exposes_its_parts() {
    let user = sample_user("user");
    let ip = Some(IpAddress::V6(9));
    let current = CurrentUser::new(user.clone(), ip);
    assert_eq!(current.user().login, user.login);
    let (back, got_ip) = current.into_parts();
    assert_eq!(back.github_id, user.github_id);
    assert_eq!(got_ip, ip);
}

use riposte_social::auth::backend::{
    apply_deactivation, apply_email_verification, authenticate_password, change_password,
    create_password_reset_token, create_user, deactivate_guard, find_verification_match,
    is_mfa_locked, oidc_first_step, oidc_invite_step, reactivate_user, record_mfa_failure,
    reset_mfa_failures, update_totp, get_totp_secret, validate_reset_token, AuthError, OidcStep,
    UserRecord, DAY, HOUR,
};
use riposte_social::auth::credentials::{
    compute_session_hash, generate_verification_token, hash_password, hash_password_for_seed,
    placeholder_password_hash, verify_password,
};
use riposte_social::auth::oidc::{ensure_email_match, ensure_role_match, resolve_idp_tier, OidcConfig};
use riposte_social::crypto::{decrypt_token, EncryptionKey};

const KEY: &str = "000102030405060708090a0b0c0d0e0f101112131415161718191a1b1c1d1e1f";

fn key() -> EncryptionKey {
    EncryptionKey::from_hex(KEY).unwrap()
}

fn user(hash: &str) -> UserRecord {
    UserRecord {
        id: 42,
        email: "ann@example.com".to_string(),
        password_hash: hash.to_string(),
        email_verified: true,
        verification_token: None,
        verification_token_expires_at: None,
        totp_secret: None,
        totp_enabled: Some(false),
        totp_enabled_at: None,
        mfa_failed_attempts: Some(0),
        mfa_locked_until: None,
        active: true,
        deactivated_at: None,
        force_password_change: false,
        password_reset_token: None,
        password_reset_token_expires_at: None,
        role: "administrator".to_string(),
        oidc_sub: None,
        display_name: None,
        last_login_at: None,
        invite_code_id: None,
        activated_at: Some(1),
        handle: "ann".to_string(),
    }
}

#[test]
fn three_failures_lock_for_a_day() {
    let mut u = user("h");
    let now = 1_000_000;
    assert_eq!(record_mfa_failure(&mut u, now), (1, false));
    assert!(!is_mfa_locked(&u, now));
    assert_eq!(record_mfa_failure(&mut u, now), (2, false));
    assert_eq!(record_mfa_failure(&mut u, now), (3, true));
    assert_eq!(u.mfa_locked_until, Some(now + DAY));
    assert!(is_mfa_locked(&u, now + DAY - 1));
    assert!(!is_mfa_locked(&u, now + DAY));
    reset_mfa_failures(&mut u);
    assert!(!is_mfa_locked(&u, now));
    assert_eq!(u.mfa_failed_attempts, Some(0));
}

#[test]
fn deactivation_rules() {
    assert!(matches!(deactivate_guard(1, 1, 5), Err(AuthError::SelfDeactivation)));
    assert!(matches!(deactivate_guard(1, 2, 1), Err(AuthError::LastActiveAdministrator)));
    assert!(deactivate_guard(1, 2, 2).is_ok());
    let mut u = user("h");
    u.totp_secret = Some("s".to_string());
    u.password_reset_token = Some("t".to_string());
    apply_deactivation(&mut u, 77).unwrap();
    assert!(!u.active);
    assert_eq!(u.deactivated_at, Some(77));
    assert_eq!(u.totp_secret, None);
    assert_eq!(u.password_reset_token, None);
    assert!(matches!(apply_deactivation(&mut u, 78), Err(AuthError::AlreadyDeactivated)));
    assert_eq!(u.deactivated_at, Some(77));
}

#[test]
fn reactivation_requires_verifying_again() {
    let mut u = user("h");
    apply_deactivation(&mut u, 5).unwrap();
    let token = reactivate_user(&mut u, &key(), 1_000).unwrap();
    assert!(u.active);
    assert!(!u.email_verified);
    assert_eq!(u.verification_token_expires_at, Some(1_000 + DAY));
    let stored = u.verification_token.clone().unwrap();
    assert_eq!(decrypt_token(&key(), &stored).unwrap(), token);
    assert_eq!(token.len(), 64);
    assert!(matches!(reactivate_user(&mut u, &key(), 2_000), Err(AuthError::AlreadyActive)));
    // The emailed token finds the row, and verifying it clears the token.
    let rows = vec![user("x"), u.clone()];
    assert_eq!(find_verification_match(&rows, &key(), &token), Some(1));
    assert_eq!(find_verification_match(&rows, &key(), "nope"), None);
    apply_email_verification(&mut u, 3_000).unwrap();
    assert!(u.email_verified);
    assert_eq!(u.verification_token, None);
}

#[test]
fn reset_tokens_are_single_use_and_rate_limited() {
    let mut u = user("h");
    let now = 10 * HOUR;
    let token = create_password_reset_token(&mut u, &key(), now).unwrap();
    assert_eq!(u.password_reset_token_expires_at, Some(now + HOUR));
    assert!(matches!(
        create_password_reset_token(&mut u, &key(), now + 1),
        Err(AuthError::ResetCooldown)
    ));
    let rows = vec![u.clone()];
    assert_eq!(validate_reset_token(&rows, &key(), &token, now + 10), Some(0));
    assert_eq!(validate_reset_token(&rows, &key(), &token, now + HOUR + 1), None);
    assert_eq!(validate_reset_token(&rows, &key(), "other", now + 10), None);
}

#[test]
fn passwords_hash_and_verify() {
    let h = hash_password("MyStr0ng!Password123").unwrap();
    assert!(h.starts_with("$argon2"));
    assert!(matches!(verify_password("MyStr0ng!Password123", &h), Ok(true)));
    assert!(matches!(verify_password("wrong", &h), Ok(false)));
    assert!(matches!(verify_password("x", "not a phc string"), Err(AuthError::InvalidHash)));
    let s = hash_password_for_seed("seed-password").unwrap();
    assert!(matches!(verify_password("seed-password", &s), Ok(true)));
}

#[test]
fn password_login_needs_good_standing() {
    let h = hash_password("MyStr0ng!Password123").unwrap();
    let dummy = h.clone();
    let u = user(&h);
    let a = authenticate_password(Some(&u), "MyStr0ng!Password123", &dummy).unwrap().unwrap();
    assert_eq!(a.id, 42);
    assert_eq!(a.role, "administrator");
    // Without TOTP there is no second factor to wait for.
    assert!(a.mfa_verified);
    let mut with_totp = user(&h);
    with_totp.totp_enabled = Some(true);
    let b = authenticate_password(Some(&with_totp), "MyStr0ng!Password123", &dummy).unwrap().unwrap();
    assert!(b.totp_enabled);
    assert!(!b.mfa_verified);
    assert!(authenticate_password(Some(&u), "wrong", &dummy).unwrap().is_none());
    assert!(authenticate_password(None, "MyStr0ng!Password123", &dummy).unwrap().is_none());
    let mut sso = user(&h);
    sso.oidc_sub = Some("sub".to_string());
    assert!(authenticate_password(Some(&sso), "MyStr0ng!Password123", &dummy).unwrap().is_none());
    let mut off = user(&h);
    off.active = false;
    assert!(matches!(authenticate_password(Some(&off), "MyStr0ng!Password123", &dummy), Err(AuthError::Deactivated)));
    let mut inert = user(&h);
    inert.activated_at = None;
    assert!(matches!(authenticate_password(Some(&inert), "MyStr0ng!Password123", &dummy), Err(AuthError::NotActivated)));
    let mut unverified = user(&h);
    unverified.email_verified = false;
    assert!(matches!(authenticate_password(Some(&unverified), "MyStr0ng!Password123", &dummy), Err(AuthError::EmailNotVerified)));
}

#[test]
fn changing_the_password() {
    let mut u = user("old");
    change_password(&mut u, "N3w!Password-for-Ann", true).unwrap();
    assert!(u.force_password_change);
    assert!(matches!(verify_password("N3w!Password-for-Ann", &u.password_hash), Ok(true)));
}

#[test]
fn account_creation_checks_domain_and_uniqueness() {
    let k = key();
    match create_user("bob@other.org", "pw", "poster", true, "example.com", false, &k, 1, "bob".to_string(), 0) {
        Err(e @ AuthError::DomainNotAllowed { .. }) => assert_eq!(e.message(), "Email must be from example.com domain"),
        other => panic!("unexpected {:?}", other.map(|_| ())),
    }
    assert!(matches!(
        create_user("bob@example.com", "pw", "poster", true, "example.com", true, &k, 1, "bob".to_string(), 0),
        Err(AuthError::AlreadyExists)
    ));
    let (row, token) =
        create_user("carl@elsewhere.net", "pw", "commenter", false, "example.com", false, &k, 9, "carl".to_string(), 100)
            .unwrap();
    assert_eq!(row.role, "commenter");
    assert_eq!(row.activated_at, None);
    assert!(!row.email_verified);
    assert_eq!(row.verification_token_expires_at, Some(100 + DAY));
    assert_eq!(decrypt_token(&k, row.verification_token.as_deref().unwrap()).unwrap(), token);
}

#[test]
fn totp_secret_is_stored_encrypted() {
    let mut u = user("h");
    update_totp(&mut u, &key(), Some("JBSWY3DPEHPK3PXP"), true, 50).unwrap();
    assert_eq!(u.totp_enabled, Some(true));
    assert_ne!(u.totp_secret.as_deref(), Some("JBSWY3DPEHPK3PXP"));
    assert_eq!(get_totp_secret(&u, &key()).unwrap().as_deref(), Some("JBSWY3DPEHPK3PXP"));
}

#[test]
fn oidc_decisions() {
    assert_eq!(oidc_first_step(true, false).unwrap(), OidcStep::NormalLogin);
    assert!(matches!(oidc_first_step(false, false), Err(AuthError::InviteRequired)));
    assert_eq!(oidc_first_step(false, true).unwrap(), OidcStep::ValidateInvite);
    assert!(matches!(oidc_invite_step(false, true, true), Err(AuthError::InviteInvalid)));
    assert_eq!(oidc_invite_step(true, true, true).unwrap(), OidcStep::BindExisting);
    assert!(matches!(oidc_invite_step(true, false, true), Err(AuthError::InviteAccountGone)));
    assert_eq!(oidc_invite_step(true, false, false).unwrap(), OidcStep::CreateCommenter);
    assert!(ensure_role_match("poster", "poster").is_ok());
    match ensure_role_match("administrator", "poster") {
        Err(e) => assert_eq!(e.message(), "OIDC role does not match account role (idp=administrator, db=poster)"),
        Ok(()) => panic!("mismatch accepted"),
    }
    assert!(ensure_email_match("a@x.org", "b@x.org").is_err());
}

#[test]
fn idp_tiers() {
    let cfg = OidcConfig {
        enabled: true,
        issuer_url: String::new(),
        client_id: String::new(),
        client_secret: String::new(),
        redirect_uri: String::new(),
        scopes: vec![],
        role_claim: "roles".to_string(),
        admin_role: "site-admin".to_string(),
        poster_role: "site-poster".to_string(),
    };
    assert_eq!(resolve_idp_tier(&["site-poster".to_string(), "site-admin".to_string()], &cfg), "administrator");
    assert_eq!(resolve_idp_tier(&["site-poster".to_string()], &cfg), "poster");
    assert_eq!(resolve_idp_tier(&[], &cfg), "commenter");
}

#[test]
fn session_hash_follows_the_secrets() {
    let a = compute_session_hash("h", "e@x.org", None);
    assert_eq!(a.len(), 64);
    assert_eq!(a, compute_session_hash("h", "e@x.org", None));
    assert_ne!(a, compute_session_hash("h2", "e@x.org", None));
    assert_ne!(a, compute_session_hash("h", "e@x.org", Some("totp")));
    assert_ne!(compute_session_hash("ab", "c", None), compute_session_hash("a", "bc", None));
    assert_ne!(a, compute_session_hash("h", "e@x.org", Some("")));
    let t = generate_verification_token();
    assert_eq!(t.len(), 64);
    assert!(t.chars().all(|c| c.is_ascii_hexdigit() && !c.is_ascii_uppercase()));
}

#[test]
fn placeholder_hash_parses_and_refuses_guesses() {
    let h = placeholder_password_hash().unwrap();
    assert_eq!(verify_password("placeholder_", &h).unwrap(), false);
}

use riposte_social::auth::backend::{update_totp, user_auth_from_record, UserRecord, DAY, HOUR};
use riposte_social::auth::credentials::{hash_password, verify_password};
use riposte_social::auth::totp::generate_secret;
use riposte_social::crypto::{decrypt_token, EncryptionKey};
use riposte_social::errors::AppError;
use riposte_social::self_service::{
    begin_mfa_setup, change_own_password, complete_password_reset, confirm_mfa_setup, disable_mfa,
    feature_flags, forgot_password_answer, user_response, password_login, register_admin, require_local_auth,
    require_mfa_complete, start_password_reset, verify_mfa,
};
use totp_rs::{Algorithm, Secret, TOTP};

const KEY: &str = "000102030405060708090a0b0c0d0e0f101112131415161718191a1b1c1d1e1f";
const PW: &str = "MyStr0ng!Password123";

fn key() -> EncryptionKey {
    EncryptionKey::from_hex(KEY).unwrap()
}

fn user(hash: &str) -> UserRecord {
    UserRecord {
        id: 1,
        email: "ann@example.com".to_string(),
        password_hash: hash.to_string(),
        email_verified: true,
        verification_token: None,
        verification_token_expires_at: None,
        totp_secret: None,
        totp_enabled: Some(false),
        totp_enabled_at: None,
        mfa_failed_attempts: Some(0),
        mfa_locked_until: None,
        active: true,
        deactivated_at: None,
        force_password_change: false,
        password_reset_token: None,
        password_reset_token_expires_at: None,
        role: "administrator".to_string(),
        oidc_sub: None,
        display_name: None,
        last_login_at: None,
        invite_code_id: None,
        activated_at: Some(1),
        handle: "ann".to_string(),
    }
}

fn current_code(secret: &str, email: &str) -> String {
    TOTP::new(
        Algorithm::SHA1,
        6,
        1,
        30,
        Secret::Encoded(secret.to_string()).to_bytes().unwrap(),
        Some("PersonalSite".to_string()),
        email.to_string(),
    )
    .unwrap()
    .generate_current()
    .unwrap()
}

fn auth_message(r: Result<impl Sized, AppError>) -> String {
    match r {
        Err(AppError::AuthError(m)) => m,
        Err(other) => panic!("unexpected {:?}", other),
        Ok(_) => panic!("unexpected success"),
    }
}

fn mfa_user(secret: &str) -> UserRecord {
    let mut u = user("h");
    update_totp(&mut u, &key(), Some(secret), true, 10).unwrap();
    u
}

#[test]
fn gates() {
    assert!(require_local_auth(false).is_ok());
    assert_eq!(
        auth_message(require_local_auth(true)),
        "Local authentication is disabled. Please use Single Sign-On (SSO)."
    );
    assert!(require_mfa_complete(false, false).is_ok());
    assert!(require_mfa_complete(true, true).is_ok());
    assert_eq!(auth_message(require_mfa_complete(true, false)), "Please complete MFA verification first");
    let (requires_mfa, message) = forgot_password_answer();
    assert!(requires_mfa);
    assert_eq!(message, "Please enter your MFA code to continue");
}

#[test]
fn refused_logins_all_look_alike() {
    let h = hash_password(PW).unwrap();
    let u = user(&h);
    let mut off = user(&h);
    off.active = false;
    let mut unverified = user(&h);
    unverified.email_verified = false;
    for (row, pw) in [(Some(&u), "wrong"), (None, PW), (Some(&off), PW), (Some(&unverified), PW)] {
        assert_eq!(auth_message(password_login(row, pw, &h)), "Invalid email or password");
    }
    let ok = password_login(Some(&u), PW, &h).unwrap();
    assert!(!ok.mfa_required);
    let mut with_mfa = user(&h);
    with_mfa.totp_enabled = Some(true);
    assert!(password_login(Some(&with_mfa), PW, &h).unwrap().mfa_required);
}

#[test]
fn mfa_verification_counts_failures() {
    let setup = generate_secret("ann@example.com").unwrap();
    let mut u = mfa_user(&setup.secret_base32);
    let now = 1_000_000;
    assert_eq!(auth_message(verify_mfa(&mut u, &key(), "0000000", false, now)), "Invalid verification code");
    assert_eq!(u.mfa_failed_attempts, Some(1));
    assert_eq!(auth_message(verify_mfa(&mut u, &key(), "0000000", false, now)), "Invalid verification code");
    assert_eq!(
        auth_message(verify_mfa(&mut u, &key(), "0000000", false, now)),
        "Too many failed attempts. Account is now temporarily locked."
    );
    assert_eq!(u.mfa_locked_until, Some(now + DAY));
    let code = current_code(&setup.secret_base32, "ann@example.com");
    verify_mfa(&mut u, &key(), &code, false, now).unwrap();
    assert_eq!(u.mfa_failed_attempts, Some(0));
    assert_eq!(u.mfa_locked_until, None);
    assert_eq!(auth_message(verify_mfa(&mut u, &key(), &code, true, now)), "MFA already verified");
    let mut plain = user("h");
    assert_eq!(auth_message(verify_mfa(&mut plain, &key(), &code, false, now)), "MFA is not enabled");
}

#[test]
fn mfa_setup_and_removal() {
    let h = hash_password(PW).unwrap();
    let mut u = user(&h);
    assert_eq!(
        auth_message(begin_mfa_setup(true, false, "ann@example.com")),
        "Please complete MFA verification first"
    );
    let setup = begin_mfa_setup(false, false, "ann@example.com").unwrap();
    assert_eq!(
        auth_message(confirm_mfa_setup(&mut u, &key(), &setup.secret_base32, "0000000", 5)),
        "Invalid verification code"
    );
    assert_eq!(u.totp_enabled, Some(false));
    let code = current_code(&setup.secret_base32, "ann@example.com");
    confirm_mfa_setup(&mut u, &key(), &setup.secret_base32, &code, 5).unwrap();
    assert_eq!(u.totp_enabled, Some(true));
    assert_eq!(u.totp_enabled_at, Some(5));
    assert_eq!(auth_message(disable_mfa(&mut u, &key(), PW, true, false, 6)), "Please complete MFA verification first");
    assert_eq!(auth_message(disable_mfa(&mut u, &key(), "wrong", true, true, 6)), "Invalid password");
    assert_eq!(u.totp_enabled, Some(true));
    disable_mfa(&mut u, &key(), PW, true, true, 6).unwrap();
    assert_eq!(u.totp_enabled, Some(false));
    assert_eq!(u.totp_secret, None);
}

#[test]
fn changing_ones_own_password() {
    let h = hash_password(PW).unwrap();
    let mut u = user(&h);
    assert_eq!(
        auth_message(change_own_password(&mut u, "nope", "Another!Str0ngPass", false, false)),
        "Current password is incorrect"
    );
    match change_own_password(&mut u, PW, "weak", false, false) {
        Err(AppError::ValidationError(m)) => assert!(m.contains("; ")),
        other => panic!("unexpected {:?}", other),
    }
    assert_eq!(u.password_hash, h);
    change_own_password(&mut u, PW, "Another!Str0ngPass", false, false).unwrap();
    assert!(matches!(verify_password("Another!Str0ngPass", &u.password_hash), Ok(true)));
}

#[test]
fn reset_flow_without_mfa() {
    let mut none: Option<UserRecord> = None;
    assert_eq!(auth_message(start_password_reset(&mut none, &key(), "123456", 5)), "Invalid verification code");
    let mut row = Some(user("h"));
    let now = 100 * HOUR;
    let token = start_password_reset(&mut row, &key(), "ignored", now).unwrap();
    let stored = row.as_ref().unwrap().password_reset_token.clone().unwrap();
    assert_eq!(decrypt_token(&key(), &stored).unwrap(), token);
    assert_eq!(
        auth_message(start_password_reset(&mut row, &key(), "ignored", now + 1)),
        "Password reset already requested. Please wait for the current request to expire."
    );
    let mut rows = vec![user("other"), row.unwrap()];
    rows[0].email = "bob@example.com".to_string();
    match complete_password_reset(&mut rows, &key(), &token, "weak", now + 2) {
        Err(AppError::ValidationError(_)) => {}
        other => panic!("unexpected {:?}", other),
    }
    assert_eq!(complete_password_reset(&mut rows, &key(), &token, "N3w!Passphrase-x9z", now + 2).unwrap(), 1);
    assert!(matches!(verify_password("N3w!Passphrase-x9z", &rows[1].password_hash), Ok(true)));
    assert_eq!(
        auth_message(complete_password_reset(&mut rows, &key(), &token, "N3w!Passphrase-x9z", now + 3)),
        "Invalid or expired password reset token"
    );
}

#[test]
fn reset_flow_with_mfa() {
    let setup = generate_secret("ann@example.com").unwrap();
    let mut row = Some(mfa_user(&setup.secret_base32));
    let now = 100 * HOUR;
    assert_eq!(auth_message(start_password_reset(&mut row, &key(), "0000000", now)), "Invalid verification code");
    assert_eq!(row.as_ref().unwrap().mfa_failed_attempts, Some(1));
    let mut strict = TOTP::new(
        Algorithm::SHA1,
        6,
        0,
        30,
        Secret::Encoded(setup.secret_base32.clone()).to_bytes().unwrap(),
        Some("PersonalSite".to_string()),
        "ann@example.com".to_string(),
    )
    .unwrap();
    strict.skew = 0;
    let code = strict.generate_current().unwrap();
    let token = start_password_reset(&mut row, &key(), &code, now).unwrap();
    assert_eq!(token.len(), 64);
    assert_eq!(row.as_ref().unwrap().mfa_failed_attempts, Some(0));
    let mut locked = Some(mfa_user(&setup.secret_base32));
    locked.as_mut().unwrap().mfa_locked_until = Some(now + 10);
    assert_eq!(
        auth_message(start_password_reset(&mut locked, &key(), &code, now)),
        "Account is temporarily locked due to too many failed attempts."
    );
}

#[test]
fn registration() {
    assert_eq!(
        auth_message(register_admin(false, "a@example.com", PW, "example.com", false, &key(), 1, "a".to_string(), 0)),
        "Registration is currently disabled"
    );
    match register_admin(true, "a@example.com", "weak", "example.com", false, &key(), 1, "a".to_string(), 0) {
        Err(AppError::ValidationError(_)) => {}
        other => panic!("unexpected {:?}", other.map(|_| ())),
    }
    assert_eq!(
        auth_message(register_admin(true, "a@other.org", PW, "example.com", false, &key(), 1, "a".to_string(), 0)),
        "Email must be from example.com domain"
    );
    let (row, token) = register_admin(true, "a@example.com", PW, "example.com", false, &key(), 1, "a".to_string(), 0).unwrap();
    assert_eq!(row.role, "administrator");
    assert_eq!(token.len(), 64);
}

#[test]
fn the_signed_in_view() {
    let f = feature_flags(None, Some(false), Some(true));
    assert!(f.access_codes_enabled);
    assert!(!f.contact_form_enabled);
    assert!(f.subscriptions_enabled);
    let mut u = user("h");
    u.totp_enabled = Some(true);
    let a = user_auth_from_record(&u, false);
    let r = user_response(a, false, Some("ann".to_string()), None, Some("fr".to_string()), f);
    assert!(r.mfa_required);
    assert_eq!(r.id, 1);
    assert_eq!(r.handle.as_deref(), Some("ann"));
    let a = user_auth_from_record(&u, false);
    let r = user_response(a, true, None, None, None, feature_flags(None, None, None));
    assert!(!r.mfa_required);
}

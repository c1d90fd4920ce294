use riposte_social::admin_users::{
    activation_change, apply_admin_user_patch, check_admin_set_password, check_not_self,
    check_role, ActivationChange, UpdateAdminUserRequest,
};
use riposte_social::auth::backend::UserRecord;
use riposte_social::errors::AppError;

fn user() -> UserRecord {
    UserRecord {
        id: 7,
        email: "u@example.com".to_string(),
        password_hash: "h".to_string(),
        email_verified: false,
        verification_token: None,
        verification_token_expires_at: None,
        totp_secret: Some("enc".to_string()),
        totp_enabled: Some(true),
        totp_enabled_at: Some(5),
        mfa_failed_attempts: Some(3),
        mfa_locked_until: Some(99),
        active: true,
        deactivated_at: None,
        force_password_change: false,
        password_reset_token: None,
        password_reset_token_expires_at: None,
        role: "commenter".to_string(),
        oidc_sub: None,
        display_name: None,
        last_login_at: None,
        invite_code_id: None,
        activated_at: Some(1),
        handle: "u".to_string(),
    }
}

fn empty_patch() -> UpdateAdminUserRequest {
    UpdateAdminUserRequest {
        email_verified: None,
        reset_mfa_lockout: None,
        disable_mfa: None,
        active: None,
        new_password: None,
        role: None,
    }
}

#[test]
fn roles() {
    assert!(check_role("administrator").is_ok());
    assert!(check_role("poster").is_ok());
    assert!(check_role("commenter").is_ok());
    match check_role("owner") {
        Err(AppError::ValidationError(m)) => assert_eq!(
            m,
            "Invalid role 'owner'. Valid roles: [\"administrator\", \"poster\", \"commenter\"]"
        ),
        other => panic!("unexpected {:?}", other),
    }
}

#[test]
fn no_self_editing() {
    assert!(check_not_self(1, 2).is_ok());
    match check_not_self(3, 3) {
        Err(AppError::AuthError(m)) => {
            assert_eq!(m, "Cannot edit yourself. Use the Profile page instead.")
        }
        other => panic!("unexpected {:?}", other),
    }
}

#[test]
fn activation_transitions() {
    assert_eq!(activation_change(Some(true), false), ActivationChange::Reactivate);
    assert_eq!(activation_change(Some(false), true), ActivationChange::Deactivate);
    assert_eq!(activation_change(Some(true), true), ActivationChange::Unchanged);
    assert_eq!(activation_change(Some(false), false), ActivationChange::Unchanged);
    assert_eq!(activation_change(None, true), ActivationChange::Unchanged);
}

#[test]
fn admin_set_password_reports_every_rule_joined() {
    assert!(check_admin_set_password("MyStr0ng!Password123", "u@example.com").is_ok());
    match check_admin_set_password("short", "u@example.com") {
        Err(AppError::ValidationError(m)) => {
            assert!(m.starts_with("Password must be at least 16 characters long; "));
            assert!(m.contains("; Password must contain at least one uppercase letter"));
        }
        other => panic!("unexpected {:?}", other),
    }
}

#[test]
fn patch_applies_every_field() {
    let mut u = user();
    let mut p = empty_patch();
    p.email_verified = Some(true);
    p.disable_mfa = Some(true);
    p.role = Some("poster".to_string());
    apply_admin_user_patch(&mut u, &p).unwrap();
    assert!(u.email_verified);
    assert_eq!(u.totp_secret, None);
    assert_eq!(u.totp_enabled, Some(false));
    assert_eq!(u.totp_enabled_at, None);
    assert_eq!(u.mfa_failed_attempts, Some(0));
    assert_eq!(u.mfa_locked_until, None);
    assert_eq!(u.role, "poster");
}

#[test]
fn lockout_reset_keeps_mfa() {
    let mut u = user();
    let mut p = empty_patch();
    p.reset_mfa_lockout = Some(true);
    apply_admin_user_patch(&mut u, &p).unwrap();
    assert_eq!(u.mfa_failed_attempts, Some(0));
    assert_eq!(u.mfa_locked_until, None);
    assert_eq!(u.totp_enabled, Some(true));
}

#[test]
fn invalid_role_leaves_the_row_alone() {
    let mut u = user();
    let mut p = empty_patch();
    p.email_verified = Some(true);
    p.role = Some("root".to_string());
    assert!(apply_admin_user_patch(&mut u, &p).is_err());
    assert!(!u.email_verified);
    assert_eq!(u.role, "commenter");
}

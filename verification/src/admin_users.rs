//! The decisions behind the admin user-management endpoints: who may edit
//! whom, which account transition a patch asks for, how a patch changes a
//! user row, and the row an admin pre-provisions for an invitee.
use vstd::prelude::*;
use crate::auth::backend::{UserRecord, Timestamp};
use crate::entities::{ROLE_ADMINISTRATOR, ROLE_COMMENTER, ROLE_POSTER};
use crate::errors::AppError;
use crate::password::{self, PasswordValidator};
use crate::text;

verus! {

/// Patch of another user's account by an administrator. Absent fields are
/// left alone.
pub struct UpdateAdminUserRequest {
    pub email_verified: Option<bool>,
    pub reset_mfa_lockout: Option<bool>,
    pub disable_mfa: Option<bool>,
    pub active: Option<bool>,
    pub new_password: Option<String>,
    pub role: Option<String>,
}

/// Pre-provisioning of a new account.
pub struct CreateUserRequest {
    pub email: String,
    /// One of `administrator`, `poster`, `commenter`.
    pub role: String,
}

/// The three roles an account can hold.
pub open spec fn spec_is_valid_role(role: Seq<char>) -> bool {
    role == ROLE_ADMINISTRATOR@ || role == ROLE_POSTER@ || role == ROLE_COMMENTER@
}

/// The message of a refused role value.
pub open spec fn invalid_role_message(role: Seq<char>) -> Seq<char> {
    "Invalid role '"@ + role + "'. Valid roles: [\"administrator\", \"poster\", \"commenter\"]"@
}

pub open spec fn self_edit_message() -> Seq<char> {
    "Cannot edit yourself. Use the Profile page instead."@
}

/// Check that `role` is one of the three roles; otherwise the validation
/// error that names it.
pub fn check_role(role: &str) -> (r: Result<(), AppError>)
    ensures
        r is Ok <==> spec_is_valid_role(role@),
        r matches Err(e) ==> e matches AppError::ValidationError(m) && m@ == invalid_role_message(
            role@,
        ),
{
    if text::str_eq(role, ROLE_ADMINISTRATOR) || text::str_eq(role, ROLE_POSTER) || text::str_eq(
        role,
        ROLE_COMMENTER,
    ) {
        return Ok(());
    }
    let mut m = text::owned("Invalid role '");
    m.append(role);
    m.append("'. Valid roles: [\"administrator\", \"poster\", \"commenter\"]");
    proof {
        reveal_strlit("Invalid role '");
        reveal_strlit("'. Valid roles: [\"administrator\", \"poster\", \"commenter\"]");
    }
    Err(AppError::ValidationError(m))
}

/// An administrator edits other accounts only; their own goes through the
/// profile page.
pub fn check_not_self(current_user_id: u128, target_id: u128) -> (r: Result<(), AppError>)
    ensures
        r is Ok <==> current_user_id != target_id,
        r matches Err(e) ==> e matches AppError::AuthError(m) && m@ == self_edit_message(),
{
    if current_user_id == target_id {
        return Err(AppError::AuthError(text::owned("Cannot edit yourself. Use the Profile page instead.")));
    }
    Ok(())
}

/// The account transition an `active` field asks for.
#[derive(Debug, PartialEq, Eq, Structural)]
pub enum ActivationChange {
    Unchanged,
    Reactivate,
    Deactivate,
}

pub open spec fn spec_activation_change(requested: Option<bool>, active: bool) -> ActivationChange {
    match requested {
        Some(true) if !active => ActivationChange::Reactivate,
        Some(false) if active => ActivationChange::Deactivate,
        _ => ActivationChange::Unchanged,
    }
}

/// Reactivate when activation is asked for an inactive account, deactivate
/// when deactivation is asked for an active one, and nothing otherwise.
pub fn activation_change(requested: Option<bool>, currently_active: bool) -> (r: ActivationChange)
    ensures
        r == spec_activation_change(requested, currently_active),
{
    match requested {
        Some(true) => if !currently_active {
            ActivationChange::Reactivate
        } else {
            ActivationChange::Unchanged
        },
        Some(false) => if currently_active {
            ActivationChange::Deactivate
        } else {
            ActivationChange::Unchanged
        },
        None => ActivationChange::Unchanged,
    }
}

/// Check a password that an administrator sets for the account `email`:
/// every broken policy rule, joined with `"; "`, as one validation error.
pub fn check_admin_set_password(new_password: &str, email: &str) -> (r: Result<(), AppError>)
    ensures
        ({
            let errs = password::password_errors(
                new_password@,
                text::unicode_lowercase(new_password@),
                text::unicode_lowercase(email@),
            );
            &&& r is Ok <==> errs.len() == 0
            &&& r matches Err(e) ==> e matches AppError::ValidationError(m) && m@ == text::join(
                errs,
                "; "@,
            )
        }),
{
    match PasswordValidator::validate(new_password, email) {
        Ok(()) => Ok(()),
        Err(errs) => {
            let m = text::join_strings(&errs, "; ");
            Err(AppError::ValidationError(m))
        },
    }
}

/// The row after the plain fields of a patch: the verified flag when given,
/// the MFA lockout cleared when asked, MFA switched off (and its lockout
/// cleared) when asked, and the role when given.
pub open spec fn spec_patched(rec: UserRecord, req: UpdateAdminUserRequest) -> UserRecord {
    let r1 = match req.email_verified {
        Some(v) => UserRecord { email_verified: v, ..rec },
        None => rec,
    };
    let r2 = if req.reset_mfa_lockout == Some(true) {
        UserRecord { mfa_failed_attempts: Some(0i32), mfa_locked_until: None, ..r1 }
    } else {
        r1
    };
    let r3 = if req.disable_mfa == Some(true) {
        UserRecord {
            totp_secret: None,
            totp_enabled: Some(false),
            totp_enabled_at: None,
            mfa_failed_attempts: Some(0i32),
            mfa_locked_until: None,
            ..r2
        }
    } else {
        r2
    };
    r3
}

/// Apply the plain fields of a patch to the row. A role outside the three
/// roles refuses the whole patch and leaves the row as it was; otherwise the
/// row is [`spec_patched`] with the new role when one is given.
pub fn apply_admin_user_patch(rec: &mut UserRecord, req: &UpdateAdminUserRequest) -> (r: Result<
    (),
    AppError,
>)
    ensures
        match req.role {
            Some(role) => {
                &&& r is Ok <==> spec_is_valid_role(role@)
                &&& r matches Err(e) ==> e matches AppError::ValidationError(m) && m@
                    == invalid_role_message(role@)
            },
            None => r is Ok,
        },
        r is Err ==> *final(rec) == *old(rec),
        r is Ok ==> *final(rec) == (match req.role {
            Some(role) => UserRecord { role: role, ..spec_patched(*old(rec), *req) },
            None => spec_patched(*old(rec), *req),
        }),
{
    if let Some(role) = &req.role {
        check_role(role.as_str())?;
    }
    if let Some(v) = req.email_verified {
        rec.email_verified = v;
    }
    if req.reset_mfa_lockout == Some(true) {
        rec.mfa_failed_attempts = Some(0);
        rec.mfa_locked_until = None;
    }
    if req.disable_mfa == Some(true) {
        rec.totp_secret = None;
        rec.totp_enabled = Some(false);
        rec.totp_enabled_at = None;
        rec.mfa_failed_attempts = Some(0);
        rec.mfa_locked_until = None;
    }
    if let Some(role) = &req.role {
        rec.role = role.clone();
    }
    Ok(())
}

} // verus!

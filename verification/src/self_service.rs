//! The local-account self-service flows: registration, login, MFA setup,
//! MFA verification, MFA removal, password change and the MFA-gated
//! password reset. Each flow decides on the user row it is given and
//! updates it; sessions, storage and email belong to the server.
use vstd::prelude::*;
use crate::admin_users;
use crate::api::FeatureFlags;
use crate::auth::backend::{
    self, attempts_of, reset_in_cooldown, spec_after_mfa_failure, spec_after_mfa_reset,
    spec_mfa_locked, totp_on, AuthError, Timestamp, UserAuth, UserRecord, DAY, HOUR,
};
use crate::auth::credentials;
use crate::auth::totp::{self, TotpSetup};
use crate::crypto::{self, EncryptionKey};
use crate::errors::AppError;
use crate::password;
use crate::text;

verus! {

/// The answer to a code that does not verify, and to an unknown account in
/// the reset flow (the two are indistinguishable).
pub open spec fn wrong_code_message() -> Seq<char> {
    "Invalid verification code"@
}

pub open spec fn locked_now_message() -> Seq<char> {
    "Too many failed attempts. Account is now temporarily locked."@
}

/// The answer to every refused password login.
pub open spec fn login_refused_message() -> Seq<char> {
    "Invalid email or password"@
}

fn auth_error(m: &str) -> (e: AppError)
    ensures
        e matches AppError::AuthError(t) && t@ == m@,
{
    AppError::AuthError(text::owned(m))
}

fn auth_error_prefixed(prefix: &str, detail: &str) -> (e: AppError)
    ensures
        e matches AppError::AuthError(t) && t@ == prefix@ + detail@,
{
    let mut m = text::owned(prefix);
    m.append(detail);
    AppError::AuthError(m)
}

/// Whether an error is an authentication error with message `m`.
pub open spec fn is_auth_error(e: AppError, m: Seq<char>) -> bool {
    e matches AppError::AuthError(t) && t@ == m
}

/// Whether an error is an authentication error whose message starts with `p`.
pub open spec fn auth_error_starts(e: AppError, p: Seq<char>) -> bool {
    e matches AppError::AuthError(t) && totp::starts_with(t@, p)
}

proof fn lemma_prefix(p: Seq<char>, d: Seq<char>)
    ensures
        totp::starts_with(p + d, p),
{
    assert((p + d).take(p.len() as int) =~= p);
}

/// The password policy's messages for `p` on the account `email`.
pub open spec fn policy_errors(p: Seq<char>, email: Seq<char>) -> Seq<Seq<char>> {
    password::password_errors(p, text::unicode_lowercase(p), text::unicode_lowercase(email))
}

// ---------------------------------------------------------------------------
// Gates
// ---------------------------------------------------------------------------

/// Local accounts are refused when sign-in goes through the identity
/// provider.
pub fn require_local_auth(oidc_enabled: bool) -> (r: Result<(), AppError>)
    ensures
        r is Ok <==> !oidc_enabled,
        r matches Err(e) ==> is_auth_error(
            e,
            "Local authentication is disabled. Please use Single Sign-On (SSO)."@,
        ),
{
    if oidc_enabled {
        return Err(auth_error("Local authentication is disabled. Please use Single Sign-On (SSO)."));
    }
    Ok(())
}

/// Sensitive operations wait until a session with MFA on has passed it.
pub fn require_mfa_complete(totp_enabled: bool, mfa_verified: bool) -> (r: Result<(), AppError>)
    ensures
        r is Ok <==> !(totp_enabled && !mfa_verified),
        r matches Err(e) ==> is_auth_error(e, "Please complete MFA verification first"@),
{
    if totp_enabled && !mfa_verified {
        return Err(auth_error("Please complete MFA verification first"));
    }
    Ok(())
}

// ---------------------------------------------------------------------------
// Registration and login
// ---------------------------------------------------------------------------

/// Register the bootstrap administrator: refused while registration is off
/// and for a password the policy refuses; then the account is created
/// (see [`backend::create_admin`]). Returns the row and the verification
/// token to email.
pub fn register_admin(
    registration_enabled: bool,
    email: &str,
    pw: &str,
    allowed_domain: &str,
    email_taken: bool,
    key: &EncryptionKey,
    new_id: u128,
    handle: String,
    now: Timestamp,
) -> (r: Result<(UserRecord, String), AppError>)
    requires
        now <= i64::MAX - DAY,
    ensures
        !registration_enabled ==> (r matches Err(e) && is_auth_error(e, "Registration is currently disabled"@)),
        registration_enabled && policy_errors(pw@, email@).len() > 0 ==> (r matches Err(e)
            && e matches AppError::ValidationError(m) && m@ == text::join(policy_errors(pw@, email@), "; "@)),
        registration_enabled && policy_errors(pw@, email@).len() == 0 && !backend::in_domain(
            email@,
            allowed_domain@,
        ) ==> (r matches Err(e) && is_auth_error(
            e,
            "Email must be from "@ + allowed_domain@ + " domain"@,
        )),
        registration_enabled && policy_errors(pw@, email@).len() == 0 && backend::in_domain(
            email@,
            allowed_domain@,
        ) && email_taken ==> (r matches Err(e) && is_auth_error(
            e,
            "User with this email already exists"@,
        )),
        registration_enabled && policy_errors(pw@, email@).len() == 0 && backend::in_domain(
            email@,
            allowed_domain@,
        ) && !email_taken ==> r is Ok,
        r matches Ok((u, _)) ==> {
            &&& registration_enabled
            &&& policy_errors(pw@, email@).len() == 0
            &&& u.role@ == crate::entities::ROLE_ADMINISTRATOR@
            &&& u.email@ == email@
            &&& credentials::argon2_verifies(pw@, u.password_hash@)
        },
{
    if !registration_enabled {
        return Err(auth_error("Registration is currently disabled"));
    }
    admin_users::check_admin_set_password(pw, email)?;
    proof {
        password::accepted_password_meets_policy(
            pw@,
            text::unicode_lowercase(pw@),
            text::unicode_lowercase(email@),
        );
        text::lemma_utf8_len_at_most(pw@);
    }
    match backend::create_admin(email, pw, allowed_domain, email_taken, key, new_id, handle, now) {
        Ok(p) => Ok(p),
        Err(e) => Err(AppError::AuthError(e.message())),
    }
}

/// Outcome of a password login: the principal, and whether the session
/// still has to pass MFA.
pub struct LoginOutcome {
    pub user: UserAuth,
    pub mfa_required: bool,
}

/// Password login. Every refusal (unknown email, wrong password, SSO-linked,
/// deactivated, inert or unverified account, unreadable hash) gets the same
/// answer, so that responses do not tell which accounts exist.
pub fn password_login(row: Option<&UserRecord>, pw: &str, dummy_hash: &str) -> (r: Result<
    LoginOutcome,
    AppError,
>)
    ensures
        (row matches Some(u) && {
            &&& u.oidc_sub is None && u.active && u.activated_at is Some && u.email_verified
            &&& credentials::argon2_hash_parses(u.password_hash@)
            &&& credentials::argon2_verifies(pw@, u.password_hash@)
        }) ==> r is Ok,
        r matches Err(e) ==> is_auth_error(e, login_refused_message()),
        r matches Ok(o) ==> (row matches Some(u) && {
            &&& backend::principal_matches(o.user, *u, false)
            &&& u.oidc_sub is None && u.active && u.activated_at is Some && u.email_verified
            &&& credentials::argon2_verifies(pw@, u.password_hash@)
            &&& o.mfa_required == (o.user.totp_enabled && !o.user.mfa_verified)
        }),
{
    match backend::authenticate_password(row, pw, dummy_hash) {
        Ok(Some(user)) => {
            let mfa_required = user.totp_enabled && !user.mfa_verified;
            Ok(LoginOutcome { user, mfa_required })
        },
        _ => Err(auth_error("Invalid email or password")),
    }
}

// ---------------------------------------------------------------------------
// MFA setup and removal
// ---------------------------------------------------------------------------

/// Start MFA enrolment: a fresh secret, its QR code and URL. Refused while
/// the session has MFA pending.
pub fn begin_mfa_setup(totp_enabled: bool, mfa_verified: bool, email: &str) -> (r: Result<
    TotpSetup,
    AppError,
>)
    ensures
        totp_enabled && !mfa_verified ==> (r matches Err(e) && is_auth_error(e, "Please complete MFA verification first"@)),
        email@.contains(':') ==> r is Err,
        !(totp_enabled && !mfa_verified) && !email@.contains(':') ==> (r is Ok || totp::qr_may_fail(
            email@,
        )),
        r matches Ok(s) ==> totp::is_setup_for(s, email@),
{
    require_mfa_complete(totp_enabled, mfa_verified)?;
    match totp::generate_secret(email) {
        Ok(s) => Ok(s),
        Err(e) => Err(auth_error_prefixed("Failed to generate TOTP secret: ", e.as_str())),
    }
}

/// Finish MFA enrolment once the authenticator's code matches the secret:
/// the secret is stored encrypted and MFA switched on. A code that does not
/// match leaves the row as it was.
pub fn confirm_mfa_setup(
    rec: &mut UserRecord,
    key: &EncryptionKey,
    secret: &str,
    code: &str,
    now: Timestamp,
) -> (r: Result<(), AppError>)
    requires
        crypto::text_encryptable(secret@),
    ensures
        totp::check_refused(secret@, old(rec).email@) ==> (r matches Err(e) && auth_error_starts(
            e,
            "Failed to verify code: "@,
        )),
        !totp::check_refused(secret@, old(rec).email@) ==> (r matches Err(e) ==> (is_auth_error(
            e,
            wrong_code_message(),
        ) || (vstd::utf8::encode_utf8(secret@).len() > crypto::aes_gcm_p_max() && auth_error_starts(
            e,
            "Failed to enable MFA: "@,
        )))),
        r is Err ==> *final(rec) == *old(rec),
        r is Ok ==> {
            &&& totp_on(*final(rec))
            &&& final(rec).totp_enabled_at == Some(now)
            &&& final(rec).totp_secret matches Some(c) && crypto::spec_decrypt_text(
                key.view_bytes(),
                c@,
            ) == Some(secret@)
            &&& final(rec).password_hash == old(rec).password_hash
        },
{
    let valid = match totp::verify_code(secret, code, rec.email.as_str()) {
        Ok(v) => v,
        Err(e) => {
            proof {
                lemma_prefix("Failed to verify code: "@, e@);
            }
            return Err(auth_error_prefixed("Failed to verify code: ", e.as_str()));
        },
    };
    if !valid {
        return Err(auth_error("Invalid verification code"));
    }
    match backend::update_totp(rec, key, Some(secret), true, now) {
        Ok(()) => Ok(()),
        Err(e) => {
            let m = e.message();
            proof {
                lemma_prefix("Failed to enable MFA: "@, m@);
            }
            Err(auth_error_prefixed("Failed to enable MFA: ", m.as_str()))
        },
    }
}

/// Switch MFA off after the password is confirmed: the secret is dropped
/// and the lockout cleared. Refused while MFA is pending for the session,
/// and for a wrong password, leaving the row as it was.
pub fn disable_mfa(
    rec: &mut UserRecord,
    key: &EncryptionKey,
    pw: &str,
    totp_enabled: bool,
    mfa_verified: bool,
    now: Timestamp,
) -> (r: Result<(), AppError>)
    ensures
        totp_enabled && !mfa_verified ==> (r matches Err(e) && is_auth_error(e, "Please complete MFA verification first"@)),
        !(totp_enabled && !mfa_verified) && credentials::argon2_hash_parses(old(rec).password_hash@)
            && !credentials::argon2_verifies(pw@, old(rec).password_hash@) ==> (r matches Err(e)
            && is_auth_error(e, "Invalid password"@)),
        r is Err ==> *final(rec) == *old(rec),
        r is Ok ==> {
            &&& credentials::argon2_verifies(pw@, old(rec).password_hash@)
            &&& !totp_on(*final(rec))
            &&& final(rec).totp_secret is None
            &&& final(rec).mfa_failed_attempts == Some(0i32)
            &&& final(rec).mfa_locked_until is None
            &&& final(rec).password_hash == old(rec).password_hash
        },
{
    require_mfa_complete(totp_enabled, mfa_verified)?;
    let valid = match credentials::verify_password(pw, rec.password_hash.as_str()) {
        Ok(v) => v,
        Err(e) => return Err(AppError::AuthError(e.message())),
    };
    if !valid {
        return Err(auth_error("Invalid password"));
    }
    match backend::update_totp(rec, key, None, false, now) {
        Ok(()) => Ok(()),
        Err(e) => {
            let m = e.message();
            Err(auth_error_prefixed("Failed to disable MFA: ", m.as_str()))
        },
    }
}

// ---------------------------------------------------------------------------
// MFA verification
// ---------------------------------------------------------------------------

/// Check a session's MFA code against the stored secret. A code that does
/// not verify is counted (the third in a row locks the account for a day);
/// a code that verifies clears the count. Refused without MFA on, or when
/// the session already passed.
pub fn verify_mfa(
    rec: &mut UserRecord,
    key: &EncryptionKey,
    code: &str,
    already_verified: bool,
    now: Timestamp,
) -> (r: Result<(), AppError>)
    requires
        attempts_of(*old(rec)) < i32::MAX,
        now <= i64::MAX - DAY,
    ensures
        !totp_on(*old(rec)) ==> (r matches Err(e) && is_auth_error(e, "MFA is not enabled"@)),
        totp_on(*old(rec)) && already_verified ==> (r matches Err(e) && is_auth_error(e, "MFA already verified"@)),
        totp_on(*old(rec)) && !already_verified && old(rec).totp_secret is None ==> (r matches Err(e)
            && is_auth_error(e, "TOTP secret not configured"@)),
        r is Ok ==> *final(rec) == spec_after_mfa_reset(*old(rec)),
        r matches Err(e) ==> (*final(rec) == *old(rec) || (*final(rec) == spec_after_mfa_failure(
            *old(rec),
            now,
        ) && (if attempts_of(*old(rec)) + 1 >= 3 {
            is_auth_error(e, locked_now_message())
        } else {
            is_auth_error(e, wrong_code_message())
        }))),
{
    if !rec.totp_enabled.unwrap_or(false) {
        return Err(auth_error("MFA is not enabled"));
    }
    if already_verified {
        return Err(auth_error("MFA already verified"));
    }
    let secret = match backend::get_totp_secret(rec, key) {
        Ok(Some(s)) => s,
        Ok(None) => return Err(auth_error("TOTP secret not configured")),
        Err(e) => return Err(AppError::AuthError(e.message())),
    };
    let valid = match totp::verify_code(secret.as_str(), code, rec.email.as_str()) {
        Ok(v) => v,
        Err(e) => return Err(auth_error_prefixed("Failed to verify code: ", e.as_str())),
    };
    if !valid {
        let (_attempts, locked) = backend::record_mfa_failure(rec, now);
        if locked {
            return Err(auth_error("Too many failed attempts. Account is now temporarily locked."));
        }
        return Err(auth_error("Invalid verification code"));
    }
    backend::reset_mfa_failures(rec);
    Ok(())
}

// ---------------------------------------------------------------------------
// Password change and reset
// ---------------------------------------------------------------------------

/// Change the signed-in user's own password: MFA must be complete, the
/// current password must verify, and the new one must pass the policy.
pub fn change_own_password(
    rec: &mut UserRecord,
    current_password: &str,
    new_password: &str,
    totp_enabled: bool,
    mfa_verified: bool,
) -> (r: Result<(), AppError>)
    ensures
        totp_enabled && !mfa_verified ==> (r matches Err(e) && is_auth_error(e, "Please complete MFA verification first"@)),
        !(totp_enabled && !mfa_verified) && credentials::argon2_hash_parses(old(rec).password_hash@)
            && !credentials::argon2_verifies(current_password@, old(rec).password_hash@) ==> (r matches Err(e)
            && is_auth_error(e, "Current password is incorrect"@)),
        r is Err ==> *final(rec) == *old(rec),
        r is Ok ==> {
            &&& credentials::argon2_verifies(current_password@, old(rec).password_hash@)
            &&& policy_errors(new_password@, old(rec).email@).len() == 0
            &&& credentials::argon2_verifies(new_password@, final(rec).password_hash@)
            &&& *final(rec) == UserRecord {
                password_hash: final(rec).password_hash,
                force_password_change: false,
                ..*old(rec)
            }
        },
{
    require_mfa_complete(totp_enabled, mfa_verified)?;
    let valid = match credentials::verify_password(current_password, rec.password_hash.as_str()) {
        Ok(v) => v,
        Err(e) => return Err(AppError::AuthError(e.message())),
    };
    if !valid {
        return Err(auth_error("Current password is incorrect"));
    }
    admin_users::check_admin_set_password(new_password, rec.email.as_str())?;
    match backend::change_password(rec, new_password, false) {
        Ok(()) => Ok(()),
        Err(e) => {
            let m = e.message();
            Err(auth_error_prefixed("Failed to change password: ", m.as_str()))
        },
    }
}

/// The answer to a reset request, the same for every email so that it does
/// not tell which accounts exist.
pub fn forgot_password_answer() -> (r: (bool, String))
    ensures
        r.0,
        r.1@ == "Please enter your MFA code to continue"@,
{
    (true, text::owned("Please enter your MFA code to continue"))
}

/// Issue a reset token for the account found for the email (`None` when
/// there is none), after its MFA code verified (accounts without MFA skip
/// the code). An unknown account gets the same answer as a wrong code.
/// Refused during the cooldown of an earlier request and while MFA is
/// locked. Returns the plaintext token to email.
pub fn start_password_reset(
    row: &mut Option<UserRecord>,
    key: &EncryptionKey,
    code: &str,
    now: Timestamp,
) -> (r: Result<String, AppError>)
    requires
        *old(row) matches Some(u) ==> attempts_of(u) < i32::MAX,
        now <= i64::MAX - DAY,
    ensures
        *old(row) is None ==> (r matches Err(e) && is_auth_error(e, wrong_code_message())),
        *old(row) is None ==> *final(row) == *old(row),
        *old(row) matches Some(u) ==> {
            &&& reset_in_cooldown(u, now) ==> (r matches Err(e) && is_auth_error(
                e,
                "Password reset already requested. Please wait for the current request to expire."@,
            ) && *final(row) == *old(row))
            &&& !reset_in_cooldown(u, now) && totp_on(u) && spec_mfa_locked(u, now) ==> (r matches Err(e)
                && is_auth_error(e, "Account is temporarily locked due to too many failed attempts."@)
                && *final(row) == *old(row))
            &&& r matches Ok(token) ==> {
                &&& !reset_in_cooldown(u, now)
                &&& totp_on(u) ==> !spec_mfa_locked(u, now)
                &&& *final(row) matches Some(v) && {
                    &&& v.password_reset_token matches Some(c) && crypto::spec_decrypt_text(
                        key.view_bytes(),
                        c@,
                    ) == Some(token@)
                    &&& v.password_reset_token_expires_at == Some((now + HOUR) as i64)
                    &&& v.password_hash == u.password_hash
                    &&& v.email == u.email
                }
            }
        },
{
    let u = match row {
        None => return Err(auth_error("Invalid verification code")),
        Some(u) => u,
    };
    if let Some(expires_at) = u.password_reset_token_expires_at {
        if now < expires_at {
            return Err(
                auth_error(
                    "Password reset already requested. Please wait for the current request to expire.",
                ),
            );
        }
    }
    if u.totp_enabled.unwrap_or(false) {
        if backend::is_mfa_locked(u, now) {
            return Err(auth_error("Account is temporarily locked due to too many failed attempts."));
        }
        let secret = match backend::get_totp_secret(u, key) {
            Ok(Some(s)) => s,
            Ok(None) => return Err(auth_error("Invalid verification code")),
            Err(e) => return Err(AppError::AuthError(e.message())),
        };
        let valid = match totp::verify_code_strict(secret.as_str(), code, u.email.as_str()) {
            Ok(v) => v,
            Err(e) => return Err(auth_error_prefixed("Failed to verify code: ", e.as_str())),
        };
        if !valid {
            let (_attempts, locked) = backend::record_mfa_failure(u, now);
            if locked {
                return Err(auth_error("Too many failed attempts. Account is now temporarily locked."));
            }
            return Err(auth_error("Invalid verification code"));
        }
        backend::reset_mfa_failures(u);
    }
    match backend::create_password_reset_token(u, key, now) {
        Ok(token) => Ok(token),
        Err(e) => Err(AppError::AuthError(e.message())),
    }
}

/// Complete a reset with the emailed token: the token must designate an
/// account and be unexpired, and the new password must pass the policy for
/// that account. Returns the index of the account's row.
pub fn complete_password_reset(
    rows: &mut Vec<UserRecord>,
    key: &EncryptionKey,
    token: &str,
    new_password: &str,
    now: Timestamp,
) -> (r: Result<usize, AppError>)
    ensures
        backend::spec_validate_reset(old(rows)@, key.view_bytes(), token@, now) is None ==> (r matches Err(e)
            && is_auth_error(e, "Invalid or expired password reset token"@)),
        r is Err ==> final(rows)@ == old(rows)@,
        r matches Ok(i) ==> {
            &&& backend::spec_validate_reset(old(rows)@, key.view_bytes(), token@, now) == Some(i as int)
            &&& policy_errors(new_password@, old(rows)@[i as int].email@).len() == 0
            &&& credentials::argon2_verifies(new_password@, final(rows)@[i as int].password_hash@)
            &&& final(rows)@ == old(rows)@.update(
                i as int,
                UserRecord {
                    password_hash: final(rows)@[i as int].password_hash,
                    force_password_change: false,
                    password_reset_token: None,
                    ..old(rows)@[i as int]
                },
            )
        },
{
    let i = match backend::validate_reset_token(rows.as_slice(), key, token, now) {
        Some(i) => i,
        None => return Err(auth_error("Invalid or expired password reset token")),
    };
    admin_users::check_admin_set_password(new_password, rows[i].email.as_str())?;
    match backend::apply_password_reset(&mut rows[i], new_password, now) {
        Ok(()) => Ok(i),
        Err(e) => Err(AppError::AuthError(e.message())),
    }
}

// ---------------------------------------------------------------------------
// The signed-in user
// ---------------------------------------------------------------------------

/// The signed-in user as the frontends see it.
pub struct UserResponse {
    pub id: u128,
    pub email: String,
    pub email_verified: bool,
    pub totp_enabled: bool,
    /// MFA is on and this session has not passed it yet.
    pub mfa_required: bool,
    pub active: bool,
    pub force_password_change: bool,
    pub role: String,
    pub handle: Option<String>,
    pub avatar_url: Option<String>,
    pub locale: Option<String>,
    pub features: FeatureFlags,
}

/// The feature flags from the settings reads; a read that failed (`None`)
/// counts as on.
pub fn feature_flags(access_codes: Option<bool>, contact_form: Option<bool>, subscriptions: Option<
    bool,
>) -> (f: FeatureFlags)
    ensures
        f.access_codes_enabled == (access_codes != Some(false)),
        f.contact_form_enabled == (contact_form != Some(false)),
        f.subscriptions_enabled == (subscriptions != Some(false)),
{
    FeatureFlags {
        access_codes_enabled: access_codes.unwrap_or(true),
        contact_form_enabled: contact_form.unwrap_or(true),
        subscriptions_enabled: subscriptions.unwrap_or(true),
    }
}

/// The signed-in user's view: MFA is required exactly when it is on and the
/// session has not passed it.
pub fn user_response(
    user: UserAuth,
    mfa_verified: bool,
    handle: Option<String>,
    avatar_url: Option<String>,
    locale: Option<String>,
    features: FeatureFlags,
) -> (r: UserResponse)
    ensures
        r.id == user.id,
        r.email == user.email,
        r.email_verified == user.email_verified,
        r.totp_enabled == user.totp_enabled,
        r.mfa_required == (user.totp_enabled && !mfa_verified),
        r.active == user.active,
        r.force_password_change == user.force_password_change,
        r.role == user.role,
        r.handle == handle,
        r.avatar_url == avatar_url,
        r.locale == locale,
        r.features == features,
{
    UserResponse {
        id: user.id,
        email: user.email,
        email_verified: user.email_verified,
        totp_enabled: user.totp_enabled,
        mfa_required: user.totp_enabled && !mfa_verified,
        active: user.active,
        force_password_change: user.force_password_change,
        role: user.role,
        handle,
        avatar_url,
        locale,
        features,
    }
}

} // verus!

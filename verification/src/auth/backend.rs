//! The account state machine behind the authentication backend. Each
//! operation reads a user row (as a plain [`UserRecord`]), decides, and
//! writes the row back; the caller owns the storage round-trips.
use vstd::prelude::*;
use crate::auth::credentials;
use crate::auth::oidc;
use crate::crypto::{self, CryptoError, EncryptionKey};
use crate::entities::{ROLE_ADMINISTRATOR, ROLE_COMMENTER, ROLE_POSTER};
use crate::text;

verus! {

/// Instants are microseconds since the Unix epoch (the column precision).
pub type Timestamp = i64;

/// One hour in microseconds.
pub const HOUR: i64 = 3_600_000_000;

/// One day in microseconds.
pub const DAY: i64 = 86_400_000_000;

/// Failed MFA attempts after which the account is locked.
pub const MAX_MFA_ATTEMPTS: i32 = 3;

/// The plain values of a `users` row that the account logic reads and writes.
#[derive(Debug, Clone)]
pub struct UserRecord {
    pub id: u128,
    pub email: String,
    pub password_hash: String,
    pub email_verified: bool,
    pub verification_token: Option<String>,
    pub verification_token_expires_at: Option<Timestamp>,
    pub totp_secret: Option<String>,
    pub totp_enabled: Option<bool>,
    pub totp_enabled_at: Option<Timestamp>,
    pub mfa_failed_attempts: Option<i32>,
    pub mfa_locked_until: Option<Timestamp>,
    pub active: bool,
    pub deactivated_at: Option<Timestamp>,
    pub force_password_change: bool,
    pub password_reset_token: Option<String>,
    pub password_reset_token_expires_at: Option<Timestamp>,
    pub role: String,
    pub oidc_sub: Option<String>,
    pub display_name: Option<String>,
    pub last_login_at: Option<Timestamp>,
    pub invite_code_id: Option<u128>,
    pub activated_at: Option<Timestamp>,
    pub handle: String,
}

/// The session principal.
#[derive(Debug, Clone)]
pub struct UserAuth {
    pub id: u128,
    pub email: String,
    pub email_verified: bool,
    pub totp_enabled: bool,
    pub mfa_verified: bool,
    pub active: bool,
    pub force_password_change: bool,
    pub role: String,
    pub session_hash: Vec<u8>,
}

/// IdP-attested claims of an OIDC sign-in. `idp_tier` is the tier resolved
/// from the role claim; it is compared with the stored role, never used to
/// assign one.
pub struct OidcAuthClaims<'a> {
    pub sub: &'a str,
    pub email: &'a str,
    pub email_verified: bool,
    pub idp_tier: &'a str,
    pub display_name: Option<&'a str>,
}

/// Credentials accepted by the unified backend.
#[derive(Debug, Clone)]
pub enum Credentials {
    Password { email: String, password: String },
    Oidc {
        sub: String,
        email: String,
        email_verified: bool,
        idp_tier: String,
        display_name: Option<String>,
        invite_code: Option<String>,
    },
}

/// Why an authentication or account operation was refused.
#[derive(Debug)]
pub enum AuthError {
    Deactivated,
    NotActivated,
    EmailNotVerified,
    RoleMismatch { idp: String, db: String },
    EmailMismatch,
    DomainNotAllowed { domain: String },
    AlreadyExists,
    UserNotFound,
    SelfDeactivation,
    LastActiveAdministrator,
    AlreadyDeactivated,
    AlreadyActive,
    ResetCooldown,
    InvalidResetToken,
    ResendToDeactivated,
    AlreadyVerified,
    InvalidVerificationToken,
    VerificationExpired,
    NoVerificationExpiry,
    InviteRequired,
    InviteInvalid,
    InviteAccountGone,
    AlreadyLinked,
    InviteNotForAccount,
    PrivilegedNotProvisioned,
    InviteSuperseded,
    LinkedToSso,
    AlreadyActivated,
    AccountExists,
    InvalidHash,
    Crypto(CryptoError),
    Internal(String),
}

/// The message shown for an authentication error.
pub open spec fn spec_auth_message(e: AuthError) -> Seq<char> {
    match e {
        AuthError::Deactivated => "Account has been deactivated"@,
        AuthError::NotActivated => "Account not yet activated. Please use your invite link to set it up."@,
        AuthError::EmailNotVerified => "Email not verified. Please check your email for verification link."@,
        AuthError::RoleMismatch { idp, db } => "OIDC role does not match account role (idp="@ + idp@
            + ", db="@ + db@ + ")"@,
        AuthError::EmailMismatch => "OIDC email does not match account email"@,
        AuthError::DomainNotAllowed { domain } => "Email must be from "@ + domain@ + " domain"@,
        AuthError::AlreadyExists => "User with this email already exists"@,
        AuthError::UserNotFound => "User not found"@,
        AuthError::SelfDeactivation => "Cannot deactivate your own account"@,
        AuthError::LastActiveAdministrator => "Cannot deactivate the last active administrator"@,
        AuthError::AlreadyDeactivated => "User is already deactivated"@,
        AuthError::AlreadyActive => "User is already active"@,
        AuthError::ResetCooldown => "Password reset already requested. Please wait 1 hour for the current request to expire."@,
        AuthError::InvalidResetToken => "Invalid or expired password reset token"@,
        AuthError::ResendToDeactivated => "Cannot send verification email to deactivated user"@,
        AuthError::AlreadyVerified => "User email is already verified"@,
        AuthError::InvalidVerificationToken => "Invalid verification token"@,
        AuthError::VerificationExpired => "Verification token has expired"@,
        AuthError::NoVerificationExpiry => "No verification token expiration set"@,
        AuthError::InviteRequired => "This site is invite-only; please use a valid invite link to sign in."@,
        AuthError::InviteInvalid => "Invite is invalid, expired, revoked, or already used"@,
        AuthError::InviteAccountGone => "Invite is for an account that no longer exists"@,
        AuthError::AlreadyLinked => "Account already linked to a different SSO identity"@,
        AuthError::InviteNotForAccount => "Invite is not for this account"@,
        AuthError::PrivilegedNotProvisioned => "Privileged accounts must be pre-provisioned by an administrator before signing in."@,
        AuthError::InviteSuperseded => "This invite code is no longer valid. A newer invite may have been issued."@,
        AuthError::LinkedToSso => "Account is linked to SSO and cannot be activated with a password"@,
        AuthError::AlreadyActivated => "Account is already activated. Please sign in instead."@,
        AuthError::AccountExists => "An account with this email already exists. Please sign in instead."@,
        AuthError::InvalidHash => "Invalid hash"@,
        AuthError::Crypto(e) => crate::crypto::spec_crypto_message(e),
        AuthError::Internal(m) => m@,
    }
}

impl AuthError {
    /// The message shown for the error.
    pub fn message(&self) -> (r: String)
        ensures
            r@ == spec_auth_message(*self),
    {
        match self {
            AuthError::Deactivated => text::owned("Account has been deactivated"),
            AuthError::NotActivated => text::owned(
                "Account not yet activated. Please use your invite link to set it up.",
            ),
            AuthError::EmailNotVerified => text::owned(
                "Email not verified. Please check your email for verification link.",
            ),
            AuthError::RoleMismatch { idp, db } => {
                let mut s = text::owned("OIDC role does not match account role (idp=");
                s.append(idp.as_str());
                s.append(", db=");
                s.append(db.as_str());
                s.append(")");
                s
            },
            AuthError::EmailMismatch => text::owned("OIDC email does not match account email"),
            AuthError::DomainNotAllowed { domain } => {
                let mut s = text::owned("Email must be from ");
                s.append(domain.as_str());
                s.append(" domain");
                s
            },
            AuthError::AlreadyExists => text::owned("User with this email already exists"),
            AuthError::UserNotFound => text::owned("User not found"),
            AuthError::SelfDeactivation => text::owned("Cannot deactivate your own account"),
            AuthError::LastActiveAdministrator => text::owned(
                "Cannot deactivate the last active administrator",
            ),
            AuthError::AlreadyDeactivated => text::owned("User is already deactivated"),
            AuthError::AlreadyActive => text::owned("User is already active"),
            AuthError::ResetCooldown => text::owned(
                "Password reset already requested. Please wait 1 hour for the current request to expire.",
            ),
            AuthError::InvalidResetToken => text::owned("Invalid or expired password reset token"),
            AuthError::ResendToDeactivated => text::owned(
                "Cannot send verification email to deactivated user",
            ),
            AuthError::AlreadyVerified => text::owned("User email is already verified"),
            AuthError::InvalidVerificationToken => text::owned("Invalid verification token"),
            AuthError::VerificationExpired => text::owned("Verification token has expired"),
            AuthError::NoVerificationExpiry => text::owned("No verification token expiration set"),
            AuthError::InviteRequired => text::owned(
                "This site is invite-only; please use a valid invite link to sign in.",
            ),
            AuthError::InviteInvalid => text::owned(
                "Invite is invalid, expired, revoked, or already used",
            ),
            AuthError::InviteAccountGone => text::owned(
                "Invite is for an account that no longer exists",
            ),
            AuthError::AlreadyLinked => text::owned(
                "Account already linked to a different SSO identity",
            ),
            AuthError::InviteNotForAccount => text::owned("Invite is not for this account"),
            AuthError::PrivilegedNotProvisioned => text::owned(
                "Privileged accounts must be pre-provisioned by an administrator before signing in.",
            ),
            AuthError::InviteSuperseded => text::owned(
                "This invite code is no longer valid. A newer invite may have been issued.",
            ),
            AuthError::LinkedToSso => text::owned(
                "Account is linked to SSO and cannot be activated with a password",
            ),
            AuthError::AlreadyActivated => text::owned(
                "Account is already activated. Please sign in instead.",
            ),
            AuthError::AccountExists => text::owned(
                "An account with this email already exists. Please sign in instead.",
            ),
            AuthError::InvalidHash => text::owned("Invalid hash"),
            AuthError::Crypto(e) => e.message(),
            AuthError::Internal(m) => m.clone(),
        }
    }
}

// ---------------------------------------------------------------------------
// MFA lockout
// ---------------------------------------------------------------------------

pub open spec fn spec_mfa_locked(rec: UserRecord, now: Timestamp) -> bool {
    match rec.mfa_locked_until {
        Some(t) => t > now,
        None => false,
    }
}

/// Whether the account is locked out of MFA attempts at `now`.
pub fn is_mfa_locked(rec: &UserRecord, now: Timestamp) -> (r: bool)
    ensures
        r == spec_mfa_locked(*rec, now),
{
    match rec.mfa_locked_until {
        Some(t) => t > now,
        None => false,
    }
}

/// The row after one more failed MFA attempt at `now`: the count goes up by
/// one, and from the third failure on the account is locked for a day.
pub open spec fn spec_after_mfa_failure(rec: UserRecord, now: Timestamp) -> UserRecord {
    let n = (match rec.mfa_failed_attempts {
        Some(a) => a,
        None => 0,
    }) + 1;
    UserRecord {
        mfa_failed_attempts: Some(n as i32),
        mfa_locked_until: if n >= 3 {
            Some((now + DAY) as i64)
        } else {
            rec.mfa_locked_until
        },
        ..rec
    }
}

pub open spec fn attempts_of(rec: UserRecord) -> int {
    match rec.mfa_failed_attempts {
        Some(a) => a as int,
        None => 0,
    }
}

/// Record a failed MFA attempt. Returns the new attempt count and whether the
/// account is now locked.
pub fn record_mfa_failure(rec: &mut UserRecord, now: Timestamp) -> (r: (i32, bool))
    requires
        attempts_of(*old(rec)) < i32::MAX,
        now <= i64::MAX - DAY,
    ensures
        *final(rec) == spec_after_mfa_failure(*old(rec), now),
        final(rec).mfa_failed_attempts == Some(r.0),
        r.1 ==> final(rec).mfa_locked_until == Some((now + DAY) as i64),
        !r.1 ==> final(rec).mfa_locked_until == old(rec).mfa_locked_until,
        r.0 == attempts_of(*old(rec)) + 1,
        r.1 == (r.0 >= MAX_MFA_ATTEMPTS),
{
    let current = match rec.mfa_failed_attempts {
        Some(a) => a,
        None => 0,
    };
    let new_attempts = current + 1;
    rec.mfa_failed_attempts = Some(new_attempts);
    let is_locked = new_attempts >= MAX_MFA_ATTEMPTS;
    if is_locked {
        rec.mfa_locked_until = Some(now + DAY);
    }
    (new_attempts, is_locked)
}

pub open spec fn spec_after_mfa_reset(rec: UserRecord) -> UserRecord {
    UserRecord { mfa_failed_attempts: Some(0), mfa_locked_until: None, ..rec }
}

/// Reset the failure count after a successful verification.
pub fn reset_mfa_failures(rec: &mut UserRecord)
    ensures
        *final(rec) == spec_after_mfa_reset(*old(rec)),
{
    rec.mfa_failed_attempts = Some(0);
    rec.mfa_locked_until = None;
}

/// A failed MFA code counts one more attempt; it locks the account for a
/// day from now exactly when the count reaches three, and otherwise leaves
/// the lock as it was. Every other field of the row is unchanged.
pub proof fn mfa_failure_locks_only_at_the_third(rec: UserRecord, now: Timestamp)
    requires
        attempts_of(rec) < i32::MAX,
        now <= i64::MAX - DAY,
    ensures
        attempts_of(spec_after_mfa_failure(rec, now)) == attempts_of(rec) + 1,
        attempts_of(rec) + 1 < 3 ==> spec_after_mfa_failure(rec, now).mfa_locked_until
            == rec.mfa_locked_until,
        attempts_of(rec) + 1 >= 3 ==> spec_after_mfa_failure(rec, now).mfa_locked_until == Some(
            (now + DAY) as i64,
        ),
        spec_after_mfa_failure(rec, now) == (UserRecord {
            mfa_failed_attempts: spec_after_mfa_failure(rec, now).mfa_failed_attempts,
            mfa_locked_until: spec_after_mfa_failure(rec, now).mfa_locked_until,
            ..rec
        }),
{
}

/// From a clean slate, two failures leave an unlocked account unlocked.
pub proof fn two_failures_do_not_lock(rec: UserRecord, t1: Timestamp, t2: Timestamp, t: Timestamp)
    requires
        attempts_of(rec) == 0,
        rec.mfa_locked_until is None,
        t1 <= i64::MAX - DAY,
        t2 <= i64::MAX - DAY,
    ensures
        (spec_after_mfa_failure(spec_after_mfa_failure(rec, t1), t2).mfa_locked_until is None),
        !spec_mfa_locked(spec_after_mfa_failure(spec_after_mfa_failure(rec, t1), t2), t),
{
    mfa_failure_locks_only_at_the_third(rec, t1);
    mfa_failure_locks_only_at_the_third(spec_after_mfa_failure(rec, t1), t2);
}

/// From a clean slate, a single failure never locks an account that was not
/// already locked; three failures in a row lock it for a day counted from the
/// third failure; a reset unlocks it at once.
pub proof fn mfa_lockout_after_three_failures(rec: UserRecord, t1: Timestamp, t2: Timestamp, t3: Timestamp, t: Timestamp)
    requires
        attempts_of(rec) == 0,
        t3 <= i64::MAX - DAY,
        t3 <= t < t3 + DAY,
    ensures
        !spec_mfa_locked(spec_after_mfa_failure(rec, t1), t) || spec_mfa_locked(rec, t),
        spec_mfa_locked(
            spec_after_mfa_failure(spec_after_mfa_failure(spec_after_mfa_failure(rec, t1), t2), t3),
            t,
        ),
        !spec_mfa_locked(
            spec_after_mfa_reset(
                spec_after_mfa_failure(spec_after_mfa_failure(spec_after_mfa_failure(rec, t1), t2), t3),
            ),
            t,
        ),
{
}

// ---------------------------------------------------------------------------
// TOTP enrolment
// ---------------------------------------------------------------------------

/// Store (encrypted) or clear the TOTP secret and flip MFA on or off at
/// `now`. Turning MFA off also clears the lockout state so that a later
/// enrolment starts clean.
pub fn update_totp(
    rec: &mut UserRecord,
    key: &EncryptionKey,
    totp_secret: Option<&str>,
    totp_enabled: bool,
    now: Timestamp,
) -> (r: Result<(), AuthError>)
    requires
        totp_secret matches Some(s) ==> crypto::text_encryptable(s@),
    ensures
        r is Ok <==> (totp_secret matches Some(s) ==> vstd::utf8::encode_utf8(s@).len()
            <= crypto::aes_gcm_p_max()),
        r matches Err(e) ==> e == AuthError::Crypto(CryptoError::EncryptionFailed),
        r is Err ==> *final(rec) == *old(rec),
        r is Ok ==> {
            &&& final(rec).totp_enabled == Some(totp_enabled)
            &&& final(rec).totp_enabled_at == (if totp_enabled { Some(now) } else { None })
            &&& match totp_secret {
                None => final(rec).totp_secret is None,
                Some(s) => final(rec).totp_secret matches Some(c) && crypto::spec_decrypt_text(
                    key.view_bytes(),
                    c@,
                ) == Some(s@),
            }
            &&& if totp_enabled {
                final(rec).mfa_failed_attempts == old(rec).mfa_failed_attempts
                    && final(rec).mfa_locked_until == old(rec).mfa_locked_until
            } else {
                final(rec).mfa_failed_attempts == Some(0i32) && final(rec).mfa_locked_until is None
            }
            &&& final(rec).password_hash == old(rec).password_hash
            &&& final(rec).email == old(rec).email
            &&& final(rec).active == old(rec).active
            &&& final(rec).role == old(rec).role
            &&& *final(rec) == UserRecord {
                totp_secret: final(rec).totp_secret,
                totp_enabled: final(rec).totp_enabled,
                totp_enabled_at: final(rec).totp_enabled_at,
                mfa_failed_attempts: final(rec).mfa_failed_attempts,
                mfa_locked_until: final(rec).mfa_locked_until,
                ..*old(rec)
            }
        },
{
    let encrypted = match totp_secret {
        Some(s) => match crypto::encrypt_totp_secret(key, s) {
            Ok(c) => Some(c),
            Err(e) => return Err(AuthError::Crypto(e)),
        },
        None => None,
    };
    rec.totp_secret = encrypted;
    rec.totp_enabled = Some(totp_enabled);
    rec.totp_enabled_at = if totp_enabled {
        Some(now)
    } else {
        None
    };
    if !totp_enabled {
        rec.mfa_failed_attempts = Some(0);
        rec.mfa_locked_until = None;
    }
    Ok(())
}

/// The decrypted TOTP secret of the row, if one is stored.
pub fn get_totp_secret(rec: &UserRecord, key: &EncryptionKey) -> (r: Result<
    Option<String>,
    AuthError,
>)
    ensures
        match rec.totp_secret {
            None => r matches Ok(None),
            Some(c) => match crypto::spec_decrypt_text(key.view_bytes(), c@) {
                Some(s) => r matches Ok(Some(x)) && x@ == s,
                None => r matches Err(AuthError::Crypto(_)),
            },
        },
{
    match &rec.totp_secret {
        Some(c) => match crypto::decrypt_totp_secret(key, c.as_str()) {
            Ok(s) => Ok(Some(s)),
            Err(e) => Err(AuthError::Crypto(e)),
        },
        None => Ok(None),
    }
}

// ---------------------------------------------------------------------------
// Deactivation and reactivation
// ---------------------------------------------------------------------------

/// The checks made before the row is loaded: an administrator cannot
/// deactivate their own account, nor the last active administrator.
/// `active_admins` is the number of active accounts with the administrator
/// role; while it is one or less, no deactivation goes through.
pub fn deactivate_guard(user_id: u128, current_user_id: u128, active_admins: u64) -> (r: Result<
    (),
    AuthError,
>)
    ensures
        user_id == current_user_id ==> r matches Err(AuthError::SelfDeactivation),
        user_id != current_user_id && active_admins <= 1 ==> r matches Err(
            AuthError::LastActiveAdministrator,
        ),
        user_id != current_user_id && active_admins > 1 ==> r is Ok,
{
    if user_id == current_user_id {
        return Err(AuthError::SelfDeactivation);
    }
    if active_admins <= 1 {
        return Err(AuthError::LastActiveAdministrator);
    }
    Ok(())
}

/// The row after deactivation at `now`: inactive, and every secret and
/// pending token cleared.
pub open spec fn spec_after_deactivation(rec: UserRecord, now: Timestamp) -> UserRecord {
    UserRecord {
        active: false,
        deactivated_at: Some(now),
        totp_secret: None,
        totp_enabled: Some(false),
        totp_enabled_at: None,
        verification_token: None,
        verification_token_expires_at: None,
        password_reset_token: None,
        password_reset_token_expires_at: None,
        mfa_failed_attempts: Some(0),
        mfa_locked_until: None,
        ..rec
    }
}

/// Deactivate the account: refused when it is already inactive.
pub fn apply_deactivation(rec: &mut UserRecord, now: Timestamp) -> (r: Result<(), AuthError>)
    ensures
        !old(rec).active ==> (r matches Err(AuthError::AlreadyDeactivated)),
        !old(rec).active ==> *final(rec) == *old(rec),
        old(rec).active ==> r is Ok && *final(rec) == spec_after_deactivation(*old(rec), now),
{
    if !rec.active {
        return Err(AuthError::AlreadyDeactivated);
    }
    rec.active = false;
    rec.deactivated_at = Some(now);
    rec.totp_secret = None;
    rec.totp_enabled = Some(false);
    rec.totp_enabled_at = None;
    rec.verification_token = None;
    rec.verification_token_expires_at = None;
    rec.password_reset_token = None;
    rec.password_reset_token_expires_at = None;
    rec.mfa_failed_attempts = Some(0);
    rec.mfa_locked_until = None;
    Ok(())
}

/// A fresh token and its stored (encrypted) form.
fn fresh_token(key: &EncryptionKey) -> (r: Result<(String, String), AuthError>)
    ensures
        r is Ok,
        r matches Ok((plain, stored)) ==> crypto::spec_decrypt_text(key.view_bytes(), stored@)
            == Some(plain@) && plain@.len() == 64,
        r matches Ok((plain, _)) ==> exists|b: Seq<u8>| b.len() == 32 && plain@ == crypto::hex_encode(b),
{
    let token = credentials::generate_verification_token();
    proof {
        let b = choose|b: Seq<u8>| b.len() == 32 && token@ == crypto::hex_encode(b);
        lemma_hex_encode_len(b);
        lemma_hex_encode_ascii(b);
        lemma_ascii_utf8_len(token@);
    }
    match crypto::encrypt_token(key, token.as_str()) {
        Ok(stored) => Ok((token, stored)),
        Err(e) => Err(AuthError::Crypto(e)),
    }
}

pub proof fn lemma_hex_encode_len(b: Seq<u8>)
    ensures
        crypto::hex_encode(b).len() == 2 * b.len(),
    decreases b.len(),
{
    if b.len() > 0 {
        lemma_hex_encode_len(b.drop_first());
    }
}

pub proof fn lemma_hex_encode_ascii(b: Seq<u8>)
    ensures
        forall|i: int|
            0 <= i < crypto::hex_encode(b).len() ==> (#[trigger] crypto::hex_encode(b)[i] as u32)
                < 0x80,
    decreases b.len(),
{
    if b.len() > 0 {
        lemma_hex_encode_ascii(b.drop_first());
        let h = crypto::hex_encode(b);
        let first = seq![crypto::hex_digit(b[0] / 16), crypto::hex_digit(b[0] % 16)];
        assert forall|i: int| 0 <= i < h.len() implies (#[trigger] h[i] as u32) < 0x80 by {
            if i < 2 {
                assert(h[i] == first[i]);
            } else {
                assert(h[i] == crypto::hex_encode(b.drop_first())[i - 2]);
            }
        }
    }
}

pub proof fn lemma_ascii_utf8_len(s: Seq<char>)
    requires
        forall|i: int| 0 <= i < s.len() ==> (#[trigger] s[i] as u32) < 0x80,
    ensures
        text::utf8_len(s) == s.len(),
    decreases s.len(),
{
    if s.len() > 0 {
        assert(s.drop_last().push(s.last()) =~= s);
        assert forall|i: int| 0 <= i < s.drop_last().len() implies (#[trigger] s.drop_last()[i] as u32)
            < 0x80 by {
            assert(s.drop_last()[i] == s[i]);
        }
        lemma_ascii_utf8_len(s.drop_last());
        text::lemma_utf8_len_push(s.drop_last(), s.last());
    }
}

/// Reactivate a deactivated account: it becomes active again but must
/// re-verify its email with a new token, valid for a day. Returns the
/// plaintext token to email.
pub fn reactivate_user(rec: &mut UserRecord, key: &EncryptionKey, now: Timestamp) -> (r: Result<
    String,
    AuthError,
>)
    requires
        now <= i64::MAX - DAY,
    ensures
        old(rec).active ==> r matches Err(AuthError::AlreadyActive),
        r is Err ==> *final(rec) == *old(rec),
        r matches Ok(token) ==> {
            &&& final(rec).active
            &&& final(rec).deactivated_at is None
            &&& !final(rec).email_verified
            &&& final(rec).verification_token_expires_at == Some((now + DAY) as i64)
            &&& final(rec).verification_token matches Some(c) && crypto::spec_decrypt_text(
                key.view_bytes(),
                c@,
            ) == Some(token@)
            &&& final(rec).password_hash == old(rec).password_hash
            &&& final(rec).email == old(rec).email
            &&& final(rec).role == old(rec).role
            &&& final(rec).id == old(rec).id
        },
{
    if rec.active {
        return Err(AuthError::AlreadyActive);
    }
    let (token, stored) = fresh_token(key)?;
    rec.active = true;
    rec.deactivated_at = None;
    rec.email_verified = false;
    rec.verification_token = Some(stored);
    rec.verification_token_expires_at = Some(now + DAY);
    Ok(token)
}

// ---------------------------------------------------------------------------
// Passwords
// ---------------------------------------------------------------------------

/// Set a new password. With `force_change` the user must change it again at
/// the next login. The new password verifies against the stored hash.
pub fn change_password(rec: &mut UserRecord, new_password: &str, force_change: bool) -> (r: Result<
    (),
    AuthError,
>)
    ensures
        r is Ok <==> credentials::argon2_accepts(new_password@),
        r matches Err(e) ==> e is Internal,
        r is Err ==> *final(rec) == *old(rec),
        r is Ok ==> {
            &&& credentials::argon2_verifies(new_password@, final(rec).password_hash@)
            &&& final(rec).force_password_change == force_change
            &&& *final(rec) == UserRecord {
                password_hash: final(rec).password_hash,
                force_password_change: force_change,
                ..*old(rec)
            }
        },
{
    let h = credentials::hash_password(new_password)?;
    rec.password_hash = h;
    rec.force_password_change = force_change;
    Ok(())
}

/// Whether a reset request at `now` is still in its cooldown: the previous
/// token has not expired yet.
pub open spec fn reset_in_cooldown(rec: UserRecord, now: Timestamp) -> bool {
    match rec.password_reset_token_expires_at {
        Some(e) => now < e,
        None => false,
    }
}

/// Issue a password-reset token valid for an hour. Refused while the
/// previous request has not expired. Returns the plaintext token to email.
pub fn create_password_reset_token(rec: &mut UserRecord, key: &EncryptionKey, now: Timestamp) -> (r:
    Result<String, AuthError>)
    requires
        now <= i64::MAX - HOUR,
    ensures
        reset_in_cooldown(*old(rec), now) ==> r matches Err(AuthError::ResetCooldown),
        r is Err ==> *final(rec) == *old(rec),
        r matches Ok(token) ==> {
            &&& !reset_in_cooldown(*old(rec), now)
            &&& final(rec).password_reset_token matches Some(c) && crypto::spec_decrypt_text(
                key.view_bytes(),
                c@,
            ) == Some(token@)
            &&& final(rec).password_reset_token_expires_at == Some((now + HOUR) as i64)
            &&& *final(rec) == UserRecord {
                password_reset_token: final(rec).password_reset_token,
                password_reset_token_expires_at: Some((now + HOUR) as i64),
                ..*old(rec)
            }
        },
{
    if let Some(expires_at) = rec.password_reset_token_expires_at {
        if now < expires_at {
            return Err(AuthError::ResetCooldown);
        }
    }
    let (token, stored) = fresh_token(key)?;
    rec.password_reset_token = Some(stored);
    rec.password_reset_token_expires_at = Some(now + HOUR);
    Ok(token)
}

/// The stored token of a row decrypts to `token`.
pub open spec fn stored_token_is(key: Seq<u8>, stored: Option<String>, token: Seq<char>) -> bool {
    match stored {
        Some(c) => crypto::spec_decrypt_text(key, c@) == Some(token),
        None => false,
    }
}

/// Index of the first row whose reset token decrypts to `token`.
pub open spec fn first_reset_match(rows: Seq<UserRecord>, key: Seq<u8>, token: Seq<char>) -> Option<
    int,
>
    decreases rows.len(),
{
    if rows.len() == 0 {
        None
    } else if stored_token_is(key, rows[0].password_reset_token, token) {
        Some(0)
    } else {
        match first_reset_match(rows.drop_first(), key, token) {
            Some(i) => Some(i + 1),
            None => None,
        }
    }
}

/// The row a reset token designates at `now`: the first row whose token
/// matches, provided that token has not expired.
pub open spec fn spec_validate_reset(rows: Seq<UserRecord>, key: Seq<u8>, token: Seq<char>, now: Timestamp) -> Option<int> {
    match first_reset_match(rows, key, token) {
        None => None,
        Some(i) => match rows[i].password_reset_token_expires_at {
            Some(e) => if now < e {
                Some(i)
            } else {
                None
            },
            None => None,
        },
    }
}

proof fn lemma_first_reset_match_bounds(rows: Seq<UserRecord>, key: Seq<u8>, token: Seq<char>)
    ensures
        first_reset_match(rows, key, token) matches Some(i) ==> 0 <= i < rows.len()
            && stored_token_is(key, rows[i].password_reset_token, token),
    decreases rows.len(),
{
    if rows.len() > 0 && !stored_token_is(key, rows[0].password_reset_token, token) {
        lemma_first_reset_match_bounds(rows.drop_first(), key, token);
    }
}

proof fn lemma_first_reset_match_prefix(rows: Seq<UserRecord>, key: Seq<u8>, token: Seq<char>, i: int)
    requires
        0 <= i <= rows.len(),
        forall|j: int| 0 <= j < i ==> !stored_token_is(key, #[trigger] rows[j].password_reset_token, token),
    ensures
        first_reset_match(rows, key, token) == match first_reset_match(rows.skip(i), key, token) {
            Some(k) => Some(k + i),
            None => None,
        },
    decreases i,
{
    if i > 0 {
        assert(rows.drop_first().skip(i - 1) =~= rows.skip(i));
        assert forall|j: int| 0 <= j < i - 1 implies !stored_token_is(
            key,
            #[trigger] rows.drop_first()[j].password_reset_token,
            token,
        ) by {
            assert(rows.drop_first()[j] == rows[j + 1]);
        }
        lemma_first_reset_match_prefix(rows.drop_first(), key, token, i - 1);
    } else {
        assert(rows.skip(0) =~= rows);
    }
}

/// Find the row that a password-reset token designates: the first row whose
/// stored token decrypts to `token`, if that token has not expired at `now`.
pub fn validate_reset_token(rows: &[UserRecord], key: &EncryptionKey, token: &str, now: Timestamp) -> (r:
    Option<usize>)
    ensures
        match r {
            None => spec_validate_reset(rows@, key.view_bytes(), token@, now) is None,
            Some(i) => spec_validate_reset(rows@, key.view_bytes(), token@, now) == Some(i as int)
                && i < rows@.len(),
        },
{
    let mut i: usize = 0;
    while i < rows.len()
        invariant
            i <= rows@.len(),
            forall|j: int|
                0 <= j < i ==> !stored_token_is(
                    key.view_bytes(),
                    #[trigger] rows@[j].password_reset_token,
                    token@,
                ),
        decreases rows@.len() - i,
    {
        let row = &rows[i];
        let hit = match &row.password_reset_token {
            Some(c) => match crypto::decrypt_token(key, c.as_str()) {
                Ok(d) => text::str_eq(d.as_str(), token),
                Err(_) => false,
            },
            None => false,
        };
        if hit {
            proof {
                lemma_first_reset_match_prefix(rows@, key.view_bytes(), token@, i as int);
                assert(rows@.skip(i as int)[0] == rows@[i as int]);
            }
            match row.password_reset_token_expires_at {
                Some(e) => {
                    if now < e {
                        return Some(i);
                    }
                },
                None => {},
            }
            return None;
        }
        i = i + 1;
    }
    proof {
        lemma_first_reset_match_prefix(rows@, key.view_bytes(), token@, i as int);
        assert(rows@.skip(i as int).len() == 0);
    }
    None
}

/// Complete a reset on the row that the token designated, re-checked at
/// `now`: the token must still be stored and unexpired. The new password is
/// set, forced change is lifted, and the token is consumed; its expiry stays,
/// so the cooldown on new requests continues to run.
pub fn apply_password_reset(rec: &mut UserRecord, new_password: &str, now: Timestamp) -> (r: Result<
    (),
    AuthError,
>)
    ensures
        !(old(rec).password_reset_token is Some && reset_in_cooldown(*old(rec), now)) ==> r matches Err(
            AuthError::InvalidResetToken,
        ),
        r is Err ==> *final(rec) == *old(rec),
        r is Ok ==> {
            &&& credentials::argon2_verifies(new_password@, final(rec).password_hash@)
            &&& *final(rec) == UserRecord {
                password_hash: final(rec).password_hash,
                force_password_change: false,
                password_reset_token: None,
                ..*old(rec)
            }
        },
{
    let usable = rec.password_reset_token.is_some() && match rec.password_reset_token_expires_at {
        Some(e) => now < e,
        None => false,
    };
    if !usable {
        return Err(AuthError::InvalidResetToken);
    }
    let h = credentials::hash_password(new_password)?;
    rec.password_hash = h;
    rec.force_password_change = false;
    rec.password_reset_token = None;
    Ok(())
}

/// A reset token is single-use, and the cooldown outlives it: right after a
/// completed reset a second reset of the same row is refused, and so is a new
/// reset request until the first hour has passed.
pub proof fn reset_token_single_use(before: UserRecord, after: UserRecord, now: Timestamp, later: Timestamp)
    requires
        after == (UserRecord {
            password_hash: after.password_hash,
            force_password_change: false,
            password_reset_token: None,
            ..before
        }),
        reset_in_cooldown(before, now),
        now <= later,
        reset_in_cooldown(before, later),
    ensures
        !(after.password_reset_token is Some),
        reset_in_cooldown(after, later),
{
}

// ---------------------------------------------------------------------------
// Email verification
// ---------------------------------------------------------------------------

/// Issue a new verification token, valid for a day, for an active account
/// whose email is not verified yet. Returns the plaintext token to email.
pub fn regenerate_verification_token(rec: &mut UserRecord, key: &EncryptionKey, now: Timestamp) -> (r:
    Result<String, AuthError>)
    requires
        now <= i64::MAX - DAY,
    ensures
        !old(rec).active ==> r matches Err(AuthError::ResendToDeactivated),
        old(rec).active && old(rec).email_verified ==> r matches Err(AuthError::AlreadyVerified),
        r is Err ==> *final(rec) == *old(rec),
        r matches Ok(token) ==> {
            &&& old(rec).active && !old(rec).email_verified
            &&& final(rec).verification_token matches Some(c) && crypto::spec_decrypt_text(
                key.view_bytes(),
                c@,
            ) == Some(token@)
            &&& *final(rec) == UserRecord {
                verification_token: final(rec).verification_token,
                verification_token_expires_at: Some((now + DAY) as i64),
                ..*old(rec)
            }
        },
{
    if !rec.active {
        return Err(AuthError::ResendToDeactivated);
    }
    if rec.email_verified {
        return Err(AuthError::AlreadyVerified);
    }
    let (token, stored) = fresh_token(key)?;
    rec.verification_token = Some(stored);
    rec.verification_token_expires_at = Some(now + DAY);
    Ok(token)
}

/// Index of the first row whose verification token decrypts to `token`.
pub open spec fn first_verification_match(rows: Seq<UserRecord>, key: Seq<u8>, token: Seq<char>) -> Option<
    int,
>
    decreases rows.len(),
{
    if rows.len() == 0 {
        None
    } else if stored_token_is(key, rows[0].verification_token, token) {
        Some(0)
    } else {
        match first_verification_match(rows.drop_first(), key, token) {
            Some(i) => Some(i + 1),
            None => None,
        }
    }
}

proof fn lemma_first_verification_match_prefix(rows: Seq<UserRecord>, key: Seq<u8>, token: Seq<char>, i: int)
    requires
        0 <= i <= rows.len(),
        forall|j: int| 0 <= j < i ==> !stored_token_is(key, #[trigger] rows[j].verification_token, token),
    ensures
        first_verification_match(rows, key, token) == match first_verification_match(
            rows.skip(i),
            key,
            token,
        ) {
            Some(k) => Some(k + i),
            None => None,
        },
    decreases i,
{
    if i > 0 {
        assert(rows.drop_first().skip(i - 1) =~= rows.skip(i));
        assert forall|j: int| 0 <= j < i - 1 implies !stored_token_is(
            key,
            #[trigger] rows.drop_first()[j].verification_token,
            token,
        ) by {
            assert(rows.drop_first()[j] == rows[j + 1]);
        }
        lemma_first_verification_match_prefix(rows.drop_first(), key, token, i - 1);
    } else {
        assert(rows.skip(0) =~= rows);
    }
}

/// The first row whose stored verification token decrypts to `token`.
pub fn find_verification_match(rows: &[UserRecord], key: &EncryptionKey, token: &str) -> (r: Option<
    usize,
>)
    ensures
        match r {
            None => first_verification_match(rows@, key.view_bytes(), token@) is None,
            Some(i) => first_verification_match(rows@, key.view_bytes(), token@) == Some(i as int),
        },
{
    let mut i: usize = 0;
    while i < rows.len()
        invariant
            i <= rows@.len(),
            forall|j: int|
                0 <= j < i ==> !stored_token_is(
                    key.view_bytes(),
                    #[trigger] rows@[j].verification_token,
                    token@,
                ),
        decreases rows@.len() - i,
    {
        let hit = match &rows[i].verification_token {
            Some(c) => match crypto::decrypt_token(key, c.as_str()) {
                Ok(d) => text::str_eq(d.as_str(), token),
                Err(_) => false,
            },
            None => false,
        };
        if hit {
            proof {
                lemma_first_verification_match_prefix(rows@, key.view_bytes(), token@, i as int);
                assert(rows@.skip(i as int)[0] == rows@[i as int]);
            }
            return Some(i);
        }
        i = i + 1;
    }
    proof {
        lemma_first_verification_match_prefix(rows@, key.view_bytes(), token@, i as int);
        assert(rows@.skip(i as int).len() == 0);
    }
    None
}

/// Mark the matched row verified at `now`: refused when the token has
/// expired or has no expiry; on success the token is consumed.
pub fn apply_email_verification(rec: &mut UserRecord, now: Timestamp) -> (r: Result<(), AuthError>)
    ensures
        match old(rec).verification_token_expires_at {
            None => r matches Err(AuthError::NoVerificationExpiry),
            Some(e) => if now > e {
                r matches Err(AuthError::VerificationExpired)
            } else {
                r is Ok
            },
        },
        r is Err ==> *final(rec) == *old(rec),
        r is Ok ==> *final(rec) == (UserRecord {
            email_verified: true,
            verification_token: None,
            verification_token_expires_at: None,
            ..*old(rec)
        }),
{
    match rec.verification_token_expires_at {
        Some(e) => {
            if now > e {
                return Err(AuthError::VerificationExpired);
            }
        },
        None => return Err(AuthError::NoVerificationExpiry),
    }
    rec.email_verified = true;
    rec.verification_token = None;
    rec.verification_token_expires_at = None;
    Ok(())
}

// ---------------------------------------------------------------------------
// Session principal and password login
// ---------------------------------------------------------------------------

pub open spec fn opt_view(o: Option<String>) -> Option<Seq<char>> {
    match o {
        Some(s) => Some(s@),
        None => None,
    }
}

pub open spec fn totp_on(rec: UserRecord) -> bool {
    match rec.totp_enabled {
        Some(b) => b,
        None => false,
    }
}

/// The principal built from a row. An OIDC login counts as MFA-verified (the
/// IdP owns MFA); a password login starts unverified when local TOTP is on.
pub open spec fn principal_matches(a: UserAuth, rec: UserRecord, oidc_login: bool) -> bool {
    &&& a.id == rec.id
    &&& a.email@ == rec.email@
    &&& a.email_verified == rec.email_verified
    &&& a.totp_enabled == totp_on(rec)
    &&& a.mfa_verified == (oidc_login || !totp_on(rec))
    &&& a.active == rec.active
    &&& a.force_password_change == rec.force_password_change
    &&& a.role@ == rec.role@
    &&& a.session_hash@ == credentials::blake2b512(
        credentials::session_material(rec.password_hash@, rec.email@, opt_view(rec.totp_secret)),
    )
}

/// Build the session principal of a row.
pub fn user_auth_from_record(rec: &UserRecord, oidc_login: bool) -> (a: UserAuth)
    ensures
        principal_matches(a, *rec, oidc_login),
{
    let totp_enabled = match rec.totp_enabled {
        Some(b) => b,
        None => false,
    };
    let totp = match &rec.totp_secret {
        Some(t) => Some(t.as_str()),
        None => None,
    };
    let session_hash = credentials::compute_session_hash(
        rec.password_hash.as_str(),
        rec.email.as_str(),
        totp,
    );
    UserAuth {
        id: rec.id,
        email: rec.email.clone(),
        email_verified: rec.email_verified,
        totp_enabled,
        mfa_verified: oidc_login || !totp_enabled,
        active: rec.active,
        force_password_change: rec.force_password_change,
        role: rec.role.clone(),
        session_hash,
    }
}

/// The hash a password login is checked against: the row's own hash only
/// for an existing row that is not linked to SSO; the dummy hash otherwise,
/// so that every path costs one verification.
pub open spec fn hash_checked(row: Option<UserRecord>, dummy_hash: Seq<char>) -> Seq<char> {
    match row {
        Some(u) => if u.oidc_sub is Some {
            dummy_hash
        } else {
            u.password_hash@
        },
        None => dummy_hash,
    }
}

pub open spec fn password_path_open(row: Option<UserRecord>) -> bool {
    row matches Some(u) && u.oidc_sub is None
}

/// Local password login on the row found for the email (`None` when no row
/// has it). Wrong password, unknown email and SSO-linked rows all answer
/// `Ok(None)` alike; a matching password on a deactivated, inert or
/// unverified row is refused with the reason.
pub fn authenticate_password(row: Option<&UserRecord>, password: &str, dummy_hash: &str) -> (r: Result<
    Option<UserAuth>,
    AuthError,
>)
    ensures
        ({
            let rowv = match row {
                Some(u) => Some(*u),
                None => None,
            };
            let h = hash_checked(rowv, dummy_hash@);
            if !credentials::argon2_hash_parses(h) {
                r matches Err(AuthError::InvalidHash)
            } else if !password_path_open(rowv) || !credentials::argon2_verifies(password@, h) {
                r matches Ok(None)
            } else {
                let u = rowv->0;
                if !u.active {
                    r matches Err(AuthError::Deactivated)
                } else if u.activated_at is None {
                    r matches Err(AuthError::NotActivated)
                } else if !u.email_verified {
                    r matches Err(AuthError::EmailNotVerified)
                } else {
                    r matches Ok(Some(a)) && principal_matches(a, u, false)
                }
            }
        }),
{
    let (hash_to_check, open) = match row {
        Some(u) => {
            if u.oidc_sub.is_some() {
                (dummy_hash, false)
            } else {
                (u.password_hash.as_str(), true)
            }
        },
        None => (dummy_hash, false),
    };
    let valid = credentials::verify_password(password, hash_to_check)?;
    if !open || !valid {
        return Ok(None);
    }
    let u = match row {
        Some(u) => u,
        None => return Ok(None),
    };
    if !u.active {
        return Err(AuthError::Deactivated);
    }
    oidc::ensure_activated(u)?;
    if !u.email_verified {
        return Err(AuthError::EmailNotVerified);
    }
    Ok(Some(user_auth_from_record(u, false)))
}

/// No password ever opens a session on a row linked to SSO, on a
/// deactivated row, on a row not yet activated, or on a row whose email is
/// not verified.
pub proof fn password_login_requires_good_standing(
    row: UserRecord,
    password: Seq<char>,
    dummy_hash: Seq<char>,
)
    requires
        row.oidc_sub is Some || !row.active || row.activated_at is None || !row.email_verified,
    ensures
        !({
            let h = hash_checked(Some(row), dummy_hash);
            &&& credentials::argon2_hash_parses(h)
            &&& password_path_open(Some(row))
            &&& credentials::argon2_verifies(password, h)
            &&& row.active
            &&& row.activated_at is Some
            &&& row.email_verified
        }),
{
}

/// A deactivated-then-reactivated account cannot log in with its password
/// until it verifies its email again.
pub proof fn reactivation_requires_reverification(before: UserRecord, after: UserRecord)
    requires
        !after.email_verified,
    ensures
        !(password_path_open(Some(after)) && after.active && after.activated_at is Some
            && after.email_verified),
{
}

// ---------------------------------------------------------------------------
// OIDC flows
// ---------------------------------------------------------------------------

/// The steps of an OIDC sign-in, decided from what the lookups found.
#[derive(Debug, PartialEq, Eq)]
pub enum OidcStep {
    /// A row carries this IdP subject: normal login on it.
    NormalLogin,
    /// No row carries the subject: validate the invite code.
    ValidateInvite,
    /// The invite designates a pre-provisioned row: bind the subject to it.
    BindExisting,
    /// A commenter invite: mint a new commenter row.
    CreateCommenter,
}

/// First decision: a known subject logs in; otherwise an invite is required.
pub fn oidc_first_step(found_by_sub: bool, has_invite_code: bool) -> (r: Result<OidcStep, AuthError>)
    ensures
        found_by_sub ==> r == Ok::<OidcStep, AuthError>(OidcStep::NormalLogin),
        !found_by_sub && !has_invite_code ==> r matches Err(AuthError::InviteRequired),
        !found_by_sub && has_invite_code ==> r == Ok::<OidcStep, AuthError>(
            OidcStep::ValidateInvite,
        ),
{
    if found_by_sub {
        return Ok(OidcStep::NormalLogin);
    }
    if !has_invite_code {
        return Err(AuthError::InviteRequired);
    }
    Ok(OidcStep::ValidateInvite)
}

/// Second decision, after the invite lookup: an invalid invite is refused;
/// an invite stamped on a row binds it; an invite with an email hint whose row
/// is gone is refused (never downgraded to a commenter); a plain invite mints
/// a commenter.
pub fn oidc_invite_step(invite_valid: bool, row_found: bool, invite_has_hint: bool) -> (r: Result<
    OidcStep,
    AuthError,
>)
    ensures
        !invite_valid ==> r matches Err(AuthError::InviteInvalid),
        invite_valid && row_found ==> r == Ok::<OidcStep, AuthError>(OidcStep::BindExisting),
        invite_valid && !row_found && invite_has_hint ==> r matches Err(AuthError::InviteAccountGone),
        invite_valid && !row_found && !invite_has_hint ==> r == Ok::<OidcStep, AuthError>(
            OidcStep::CreateCommenter,
        ),
{
    if !invite_valid {
        return Err(AuthError::InviteInvalid);
    }
    if row_found {
        return Ok(OidcStep::BindExisting);
    }
    if invite_has_hint {
        return Err(AuthError::InviteAccountGone);
    }
    Ok(OidcStep::CreateCommenter)
}

pub open spec fn name_or(old_name: Option<String>, claim: Option<&str>) -> Option<Seq<char>> {
    match claim {
        Some(n) => Some(n@),
        None => opt_view(old_name),
    }
}

fn apply_display_name(rec: &mut UserRecord, claim: Option<&str>)
    ensures
        opt_view(final(rec).display_name) == name_or(old(rec).display_name, claim),
        *final(rec) == (UserRecord { display_name: final(rec).display_name, ..*old(rec) }),
{
    if let Some(n) = claim {
        rec.display_name = Some(text::owned(n));
    }
}

/// Normal OIDC login on the row that carries the subject. Fails closed on
/// an inert row, on role or email drift, and on a deactivated row; otherwise
/// refreshes the verified flag, the display name and the last login.
pub fn oidc_normal_login(rec: &mut UserRecord, claims: &OidcAuthClaims, now: Timestamp) -> (r: Result<
    (),
    AuthError,
>)
    ensures
        old(rec).activated_at is None ==> r matches Err(AuthError::NotActivated),
        old(rec).activated_at is Some && claims.idp_tier@ != old(rec).role@ ==> r matches Err(
            AuthError::RoleMismatch { .. },
        ),
        old(rec).activated_at is Some && claims.idp_tier@ == old(rec).role@ && claims.email@ != old(
            rec,
        ).email@ ==> r matches Err(AuthError::EmailMismatch),
        old(rec).activated_at is Some && claims.idp_tier@ == old(rec).role@ && claims.email@ == old(
            rec,
        ).email@ && !old(rec).active ==> r matches Err(AuthError::Deactivated),
        r is Err ==> *final(rec) == *old(rec),
        r is Ok ==> {
            &&& old(rec).activated_at is Some && old(rec).active
            &&& claims.idp_tier@ == old(rec).role@ && claims.email@ == old(rec).email@
            &&& opt_view(final(rec).display_name) == name_or(old(rec).display_name, claims.display_name)
            &&& *final(rec) == UserRecord {
                email_verified: claims.email_verified,
                display_name: final(rec).display_name,
                last_login_at: Some(now),
                ..*old(rec)
            }
        },
{
    oidc::ensure_activated(rec)?;
    oidc::ensure_role_match(claims.idp_tier, rec.role.as_str())?;
    oidc::ensure_email_match(claims.email, rec.email.as_str())?;
    if !rec.active {
        return Err(AuthError::Deactivated);
    }
    rec.email_verified = claims.email_verified;
    apply_display_name(rec, claims.display_name);
    rec.last_login_at = Some(now);
    Ok(())
}

/// The hint of the invite must equal `email`.
pub open spec fn hint_is(hint: Option<&str>, email: Seq<char>) -> bool {
    match hint {
        Some(h) => h@ == email,
        None => false,
    }
}

/// Bind an IdP subject to the pre-provisioned row the invite designates.
/// Refused when the row is already linked, deactivated, of another tier, or
/// when the invite's email hint is absent or differs from the IdP email. The
/// password hash is rotated to an unusable value and the row is activated.
pub fn oidc_bind_existing(
    rec: &mut UserRecord,
    claims: &OidcAuthClaims,
    invite_email_hint: Option<&str>,
    now: Timestamp,
) -> (r: Result<(), AuthError>)
    ensures
        old(rec).oidc_sub is Some ==> r matches Err(AuthError::AlreadyLinked),
        old(rec).oidc_sub is None && !old(rec).active ==> r matches Err(AuthError::Deactivated),
        old(rec).oidc_sub is None && old(rec).active && claims.idp_tier@ != old(rec).role@
            ==> r matches Err(AuthError::RoleMismatch { .. }),
        old(rec).oidc_sub is None && old(rec).active && claims.idp_tier@ == old(rec).role@
            && !hint_is(invite_email_hint, claims.email@) ==> r matches Err(
            AuthError::InviteNotForAccount,
        ),
        r is Err ==> *final(rec) == *old(rec),
        r is Ok ==> {
            &&& old(rec).oidc_sub is None && old(rec).active
            &&& claims.idp_tier@ == old(rec).role@ && hint_is(invite_email_hint, claims.email@)
            &&& opt_view(final(rec).oidc_sub) == Some(claims.sub@)
            &&& final(rec).activated_at == Some(now)
            &&& final(rec).last_login_at == Some(now)
            &&& final(rec).email_verified == claims.email_verified
            &&& opt_view(final(rec).display_name) == name_or(old(rec).display_name, claims.display_name)
            &&& *final(rec) == UserRecord {
                oidc_sub: final(rec).oidc_sub,
                password_hash: final(rec).password_hash,
                email_verified: claims.email_verified,
                display_name: final(rec).display_name,
                last_login_at: Some(now),
                activated_at: Some(now),
                ..*old(rec)
            }
        },
{
    if rec.oidc_sub.is_some() {
        return Err(AuthError::AlreadyLinked);
    }
    if !rec.active {
        return Err(AuthError::Deactivated);
    }
    oidc::ensure_role_match(claims.idp_tier, rec.role.as_str())?;
    let hint = match invite_email_hint {
        Some(h) => h,
        None => return Err(AuthError::InviteNotForAccount),
    };
    if !text::str_eq(hint, claims.email) {
        return Err(AuthError::InviteNotForAccount);
    }
    rec.oidc_sub = Some(text::owned(claims.sub));
    let mut rotated = text::owned("oidc_user_");
    let u = credentials::random_uuid_text();
    rotated.append(u.as_str());
    rec.password_hash = rotated;
    rec.email_verified = claims.email_verified;
    apply_display_name(rec, claims.display_name);
    rec.last_login_at = Some(now);
    rec.activated_at = Some(now);
    Ok(())
}

/// A new, activated row with the given identity and role and every other
/// field at its initial value.
pub open spec fn fresh_row(
    r: UserRecord,
    id: u128,
    email: Seq<char>,
    role: Seq<char>,
    handle: Seq<char>,
) -> bool {
    &&& r.id == id
    &&& r.email@ == email
    &&& r.role@ == role
    &&& r.handle@ == handle
    &&& r.totp_secret is None
    &&& r.totp_enabled == Some(false)
    &&& r.totp_enabled_at is None
    &&& r.mfa_failed_attempts == Some(0i32)
    &&& r.mfa_locked_until is None
    &&& r.active
    &&& r.deactivated_at is None
    &&& !r.force_password_change
    &&& r.password_reset_token is None
    &&& r.password_reset_token_expires_at is None
}

/// Mint a new commenter row for a first-time IdP user holding a commenter
/// invite. A privileged IdP tier is refused: such accounts must be
/// pre-provisioned, so no OIDC sign-in ever creates a privileged row.
pub fn oidc_create_commenter(
    claims: &OidcAuthClaims,
    invite_id: u128,
    new_id: u128,
    handle: String,
    now: Timestamp,
) -> (r: Result<UserRecord, AuthError>)
    ensures
        claims.idp_tier@ != ROLE_COMMENTER@ ==> r matches Err(AuthError::PrivilegedNotProvisioned),
        claims.idp_tier@ == ROLE_COMMENTER@ ==> r is Ok,
        r matches Ok(u) ==> {
            &&& fresh_row(u, new_id, claims.email@, ROLE_COMMENTER@, handle@)
            &&& u.email_verified == claims.email_verified
            &&& opt_view(u.oidc_sub) == Some(claims.sub@)
            &&& u.verification_token is None
            &&& u.invite_code_id == Some(invite_id)
            &&& u.activated_at == Some(now)
            &&& u.last_login_at == Some(now)
        },
{
    if !text::str_eq(claims.idp_tier, ROLE_COMMENTER) {
        return Err(AuthError::PrivilegedNotProvisioned);
    }
    let mut random_hash = text::owned("oidc_user_");
    let u = credentials::random_uuid_text();
    random_hash.append(u.as_str());
    let display_name = match claims.display_name {
        Some(n) => Some(text::owned(n)),
        None => None,
    };
    Ok(UserRecord {
        id: new_id,
        email: text::owned(claims.email),
        password_hash: random_hash,
        email_verified: claims.email_verified,
        verification_token: None,
        verification_token_expires_at: None,
        totp_secret: None,
        totp_enabled: Some(false),
        totp_enabled_at: None,
        mfa_failed_attempts: Some(0),
        mfa_locked_until: None,
        active: true,
        deactivated_at: None,
        force_password_change: false,
        password_reset_token: None,
        password_reset_token_expires_at: None,
        role: text::owned(ROLE_COMMENTER),
        oidc_sub: Some(text::owned(claims.sub)),
        display_name,
        last_login_at: Some(now),
        invite_code_id: Some(invite_id),
        activated_at: Some(now),
        handle,
    })
}

// ---------------------------------------------------------------------------
// Password-mode invite acceptance
// ---------------------------------------------------------------------------

/// Bind a pre-provisioned row with the password its invitee chose. Refused
/// for SSO-linked, already activated or deactivated rows, and unless the
/// invite's email hint equals both the submitted email and the row's email.
pub fn accept_invite_password_bind(
    rec: &mut UserRecord,
    invite_email_hint: Option<&str>,
    email: &str,
    new_password: &str,
    now: Timestamp,
) -> (r: Result<(), AuthError>)
    ensures
        old(rec).oidc_sub is Some ==> r matches Err(AuthError::LinkedToSso),
        old(rec).oidc_sub is None && old(rec).activated_at is Some ==> r matches Err(
            AuthError::AlreadyActivated,
        ),
        old(rec).oidc_sub is None && old(rec).activated_at is None && !old(rec).active ==> r matches Err(
            AuthError::Deactivated,
        ),
        old(rec).oidc_sub is None && old(rec).activated_at is None && old(rec).active && !(hint_is(
            invite_email_hint,
            email@,
        ) && email@ == old(rec).email@) ==> r matches Err(AuthError::InviteNotForAccount),
        r is Err ==> *final(rec) == *old(rec),
        r is Ok ==> {
            &&& credentials::argon2_verifies(new_password@, final(rec).password_hash@)
            &&& *final(rec) == UserRecord {
                password_hash: final(rec).password_hash,
                email_verified: true,
                force_password_change: false,
                last_login_at: Some(now),
                activated_at: Some(now),
                ..*old(rec)
            }
        },
{
    if rec.oidc_sub.is_some() {
        return Err(AuthError::LinkedToSso);
    }
    if rec.activated_at.is_some() {
        return Err(AuthError::AlreadyActivated);
    }
    if !rec.active {
        return Err(AuthError::Deactivated);
    }
    let hint = match invite_email_hint {
        Some(h) => h,
        None => return Err(AuthError::InviteNotForAccount),
    };
    if !text::str_eq(hint, email) || !text::str_eq(hint, rec.email.as_str()) {
        return Err(AuthError::InviteNotForAccount);
    }
    let h = credentials::hash_password(new_password)?;
    rec.password_hash = h;
    rec.email_verified = true;
    rec.force_password_change = false;
    rec.last_login_at = Some(now);
    rec.activated_at = Some(now);
    Ok(())
}

/// Mint a new commenter row from a password-mode invite. Refused when a row
/// with the email already exists.
pub fn accept_invite_password_create_commenter(
    email_taken: bool,
    email: &str,
    new_password: &str,
    invite_id: u128,
    new_id: u128,
    handle: String,
    now: Timestamp,
) -> (r: Result<UserRecord, AuthError>)
    ensures
        email_taken ==> r matches Err(AuthError::AccountExists),
        r matches Ok(u) ==> {
            &&& !email_taken
            &&& fresh_row(u, new_id, email@, ROLE_COMMENTER@, handle@)
            &&& credentials::argon2_verifies(new_password@, u.password_hash@)
            &&& u.email_verified
            &&& u.oidc_sub is None
            &&& u.verification_token is None
            &&& u.invite_code_id == Some(invite_id)
            &&& u.activated_at == Some(now)
            &&& u.last_login_at == Some(now)
        },
{
    if email_taken {
        return Err(AuthError::AccountExists);
    }
    let password_hash = credentials::hash_password(new_password)?;
    Ok(UserRecord {
        id: new_id,
        email: text::owned(email),
        password_hash,
        email_verified: true,
        verification_token: None,
        verification_token_expires_at: None,
        totp_secret: None,
        totp_enabled: Some(false),
        totp_enabled_at: None,
        mfa_failed_attempts: Some(0),
        mfa_locked_until: None,
        active: true,
        deactivated_at: None,
        force_password_change: false,
        password_reset_token: None,
        password_reset_token_expires_at: None,
        role: text::owned(ROLE_COMMENTER),
        oidc_sub: None,
        display_name: None,
        last_login_at: Some(now),
        invite_code_id: Some(invite_id),
        activated_at: Some(now),
        handle,
    })
}

// ---------------------------------------------------------------------------
// Local account creation
// ---------------------------------------------------------------------------

/// Whether `role` is an admin tier (administrator or poster), whose email
/// must belong to the site domain.
pub open spec fn is_admin_tier(role: Seq<char>) -> bool {
    role == ROLE_ADMINISTRATOR@ || role == ROLE_POSTER@
}

/// `email` ends with `@` followed by `domain`.
pub open spec fn in_domain(email: Seq<char>, domain: Seq<char>) -> bool {
    let suffix = "@"@ + domain;
    suffix.len() <= email.len() && email.skip(email.len() - suffix.len()) == suffix
}

fn ends_with_at_domain(email: &str, domain: &str) -> (r: bool)
    ensures
        r == in_domain(email@, domain@),
{
    let e = text::chars_of(email);
    let mut suffix = text::owned("@");
    suffix.append(domain);
    let s = text::chars_of(suffix.as_str());
    if s.len() > e.len() {
        return false;
    }
    let start = e.len() - s.len();
    let r = text::matches_at(&e, &s, start);
    assert(e@.subrange(start as int, start + s@.len()) =~= e@.skip(start as int));
    r
}

/// Create a local password-mode account with `role`. Admin-tier accounts
/// must use the site domain; an existing email is refused. The row starts
/// unverified with a verification token valid for a day, activated now when
/// `activated` holds and inert otherwise. Returns the row and the plaintext
/// token to email.
pub fn create_user(
    email: &str,
    password: &str,
    role: &str,
    activated: bool,
    allowed_domain: &str,
    email_taken: bool,
    key: &EncryptionKey,
    new_id: u128,
    handle: String,
    now: Timestamp,
) -> (r: Result<(UserRecord, String), AuthError>)
    requires
        now <= i64::MAX - DAY,
    ensures
        is_admin_tier(role@) && !in_domain(email@, allowed_domain@) ==> (r matches Err(
            AuthError::DomainNotAllowed { domain },
        ) && domain@ == allowed_domain@),
        !(is_admin_tier(role@) && !in_domain(email@, allowed_domain@)) && email_taken ==> r matches Err(
            AuthError::AlreadyExists,
        ),
        !(is_admin_tier(role@) && !in_domain(email@, allowed_domain@)) && !email_taken ==> (r is Ok
            <==> credentials::argon2_accepts(password@)),
        !(is_admin_tier(role@) && !in_domain(email@, allowed_domain@)) && !email_taken
            && !credentials::argon2_accepts(password@) ==> r matches Err(AuthError::Internal(_)),
        r matches Ok((u, token)) ==> {
            &&& !email_taken
            &&& fresh_row(u, new_id, email@, role@, handle@)
            &&& credentials::argon2_verifies(password@, u.password_hash@)
            &&& !u.email_verified
            &&& u.oidc_sub is None
            &&& u.verification_token matches Some(c) && crypto::spec_decrypt_text(
                key.view_bytes(),
                c@,
            ) == Some(token@)
            &&& u.verification_token_expires_at == Some((now + DAY) as i64)
            &&& u.activated_at == (if activated { Some(now) } else { None })
            &&& u.invite_code_id is None
            &&& u.last_login_at is None
        },
{
    let admin_tier = text::str_eq(role, ROLE_ADMINISTRATOR) || text::str_eq(role, ROLE_POSTER);
    if admin_tier && !ends_with_at_domain(email, allowed_domain) {
        return Err(AuthError::DomainNotAllowed { domain: text::owned(allowed_domain) });
    }
    if email_taken {
        return Err(AuthError::AlreadyExists);
    }
    let password_hash = credentials::hash_password(password)?;
    let (token, stored) = fresh_token(key)?;
    let rec = UserRecord {
        id: new_id,
        email: text::owned(email),
        password_hash,
        email_verified: false,
        verification_token: Some(stored),
        verification_token_expires_at: Some(now + DAY),
        totp_secret: None,
        totp_enabled: Some(false),
        totp_enabled_at: None,
        mfa_failed_attempts: Some(0),
        mfa_locked_until: None,
        active: true,
        deactivated_at: None,
        force_password_change: false,
        password_reset_token: None,
        password_reset_token_expires_at: None,
        role: text::owned(role),
        oidc_sub: None,
        display_name: None,
        last_login_at: None,
        invite_code_id: None,
        activated_at: if activated {
            Some(now)
        } else {
            None
        },
        handle,
    };
    Ok((rec, token))
}

/// The bootstrap administrator registration: an activated administrator.
pub fn create_admin(
    email: &str,
    password: &str,
    allowed_domain: &str,
    email_taken: bool,
    key: &EncryptionKey,
    new_id: u128,
    handle: String,
    now: Timestamp,
) -> (r: Result<(UserRecord, String), AuthError>)
    requires
        now <= i64::MAX - DAY,
    ensures
        !in_domain(email@, allowed_domain@) ==> (r matches Err(AuthError::DomainNotAllowed { domain })
            && domain@ == allowed_domain@),
        in_domain(email@, allowed_domain@) && email_taken ==> r matches Err(AuthError::AlreadyExists),
        in_domain(email@, allowed_domain@) && !email_taken ==> (r is Ok
            <==> credentials::argon2_accepts(password@)),
        in_domain(email@, allowed_domain@) && !email_taken && !credentials::argon2_accepts(password@)
            ==> r matches Err(AuthError::Internal(_)),
        r matches Ok((u, token)) ==> {
            &&& fresh_row(u, new_id, email@, ROLE_ADMINISTRATOR@, handle@)
            &&& u.activated_at == Some(now)
            &&& !u.email_verified
            &&& credentials::argon2_verifies(password@, u.password_hash@)
            &&& u.verification_token matches Some(c) && crypto::spec_decrypt_text(
                key.view_bytes(),
                c@,
            ) == Some(token@)
        },
{
    create_user(
        email,
        password,
        ROLE_ADMINISTRATOR,
        true,
        allowed_domain,
        email_taken,
        key,
        new_id,
        handle,
        now,
    )
}

} // verus!

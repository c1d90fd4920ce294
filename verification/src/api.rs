//! Request and response bodies of the admin auth and self-service
//! endpoints, as plain values. The wire encoding lives with the server.
use vstd::prelude::*;

verus! {

pub struct RegisterRequest {
    pub email: String,
    pub password: String,
}

pub struct LoginRequest {
    pub email: String,
    pub password: String,
}

pub struct RegisterResponse {
    pub message: String,
    pub email: String,
}

pub struct VerifyQuery {
    pub token: String,
}

pub struct VerifyResponse {
    pub message: String,
    pub email: String,
}

/// Feature toggles surfaced to the frontends.
pub struct FeatureFlags {
    pub access_codes_enabled: bool,
    pub contact_form_enabled: bool,
    pub subscriptions_enabled: bool,
}

pub struct CsrfTokenResponse {
    pub token: String,
}

pub struct AuthConfigResponse {
    pub oidc_enabled: bool,
    pub login_url: Option<String>,
    pub account_url: Option<String>,
    /// The deployment's domain; empty when unset.
    pub site_domain: String,
}

pub struct MfaSetupResponse {
    pub secret: String,
    pub qr_code: String,
    pub otpauth_url: String,
}

pub struct MfaConfirmRequest {
    pub secret: String,
    pub code: String,
}

pub struct MfaConfirmResponse {
    pub message: String,
    pub totp_enabled: bool,
}

pub struct MfaVerifyRequest {
    pub code: String,
}

pub struct MfaDisableRequest {
    pub password: String,
}

pub struct MfaDisableResponse {
    pub message: String,
    pub totp_enabled: bool,
}

pub struct ChangePasswordRequest {
    pub current_password: String,
    pub new_password: String,
}

pub struct ChangePasswordResponse {
    pub message: String,
}

pub struct ForgotPasswordRequest {
    pub email: String,
}

pub struct ForgotPasswordResponse {
    pub requires_mfa: bool,
    pub message: String,
}

pub struct ForgotPasswordVerifyMfaRequest {
    pub email: String,
    pub code: String,
}

pub struct ForgotPasswordVerifyMfaResponse {
    pub message: String,
}

pub struct ResetPasswordRequest {
    pub token: String,
    pub new_password: String,
}

pub struct ResetPasswordResponse {
    pub message: String,
}

/// Query of the redirect back from the identity provider.
pub struct OidcCallbackParams {
    pub code: String,
    pub state: String,
}

} // verus!

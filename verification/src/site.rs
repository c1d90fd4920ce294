//! Site-level configuration: which feature gates each caller sees, the
//! authentication configuration served to the admin app, the OIDC settings
//! read from the environment, and the order-status workflow check.
use vstd::prelude::*;
use crate::api::AuthConfigResponse;
use crate::auth::oidc::OidcConfig;
use crate::entities::{ROLE_ADMINISTRATOR, ROLE_POSTER};
use crate::errors::AppError;
use crate::text;

verus! {

/// The groups of gates a caller sees besides the site name and the public
/// feed gate that everyone sees.
pub struct GateVisibility {
    /// Posting and category-management gates: posters and administrators.
    pub poster_gates: bool,
    /// Invite and import gates: administrators.
    pub admin_gates: bool,
}

/// Which gates the caller with `role` (`None` when anonymous) sees.
pub fn gate_visibility(role: Option<&str>) -> (r: GateVisibility)
    ensures
        r.admin_gates == (role matches Some(x) && x@ == ROLE_ADMINISTRATOR@),
        r.poster_gates == (role matches Some(x) && (x@ == ROLE_ADMINISTRATOR@ || x@ == ROLE_POSTER@)),
{
    match role {
        None => GateVisibility { poster_gates: false, admin_gates: false },
        Some(x) => {
            let admin = text::str_eq(x, ROLE_ADMINISTRATOR);
            let poster = text::str_eq(x, ROLE_POSTER);
            GateVisibility { poster_gates: admin || poster, admin_gates: admin }
        },
    }
}

/// The authentication configuration served to the admin app: a login URL
/// exactly when sign-in goes through the identity provider.
pub fn auth_config(oidc_enabled: bool, account_url: Option<String>, site_domain: String) -> (r:
    AuthConfigResponse)
    ensures
        r.oidc_enabled == oidc_enabled,
        match r.login_url {
            Some(u) => oidc_enabled && u@ == "/api/auth/oidc/login"@,
            None => !oidc_enabled,
        },
        r.account_url == account_url,
        r.site_domain == site_domain,
{
    let login_url = if oidc_enabled {
        Some(text::owned("/api/auth/oidc/login"))
    } else {
        None
    };
    AuthConfigResponse { oidc_enabled, login_url, account_url, site_domain }
}

/// A setting's value, or its default when unset.
pub open spec fn or_default(v: Option<String>, d: Seq<char>) -> Seq<char> {
    match v {
        Some(s) => s@,
        None => d,
    }
}

fn value_or(v: Option<String>, d: &str) -> (r: String)
    ensures
        r@ == or_default(v, d@),
{
    match v {
        Some(s) => s,
        None => text::owned(d),
    }
}

/// The OIDC settings from their raw values (`None` when unset): sign-in
/// through the identity provider is on when the flag reads `true` in any
/// case; scopes are the white-space separated words of the scope setting,
/// `openid profile email` by default; the role claim defaults to
/// `realm_access.roles`, the administrator and poster roles to `admin` and
/// `poster`; other values default to empty.
pub fn oidc_config_from_values(
    enabled: Option<String>,
    issuer_url: Option<String>,
    client_id: Option<String>,
    client_secret: Option<String>,
    redirect_uri: Option<String>,
    scopes: Option<String>,
    role_claim: Option<String>,
    admin_role: Option<String>,
    poster_role: Option<String>,
) -> (c: OidcConfig)
    ensures
        c.enabled == (text::unicode_lowercase(or_default(enabled, ""@)) == "true"@),
        c.issuer_url@ == or_default(issuer_url, ""@),
        c.client_id@ == or_default(client_id, ""@),
        c.client_secret@ == or_default(client_secret, ""@),
        c.redirect_uri@ == or_default(redirect_uri, ""@),
        text::views(c.scopes@) == text::words(or_default(scopes, "openid profile email"@)),
        c.role_claim@ == or_default(role_claim, "realm_access.roles"@),
        c.admin_role@ == or_default(admin_role, "admin"@),
        c.poster_role@ == or_default(poster_role, "poster"@),
{
    let flag = value_or(enabled, "");
    let lowered = text::to_lowercase(flag.as_str());
    let on = text::str_eq(lowered.as_str(), "true");
    let scope_text = value_or(scopes, "openid profile email");
    let scopes = text::split_words(scope_text.as_str());
    OidcConfig {
        enabled: on,
        issuer_url: value_or(issuer_url, ""),
        client_id: value_or(client_id, ""),
        client_secret: value_or(client_secret, ""),
        redirect_uri: value_or(redirect_uri, ""),
        scopes,
        role_claim: value_or(role_claim, "realm_access.roles"),
        admin_role: value_or(admin_role, "admin"),
        poster_role: value_or(poster_role, "poster"),
    }
}

/// Whether `s` is one of `allowed`.
pub open spec fn listed(allowed: Seq<String>, s: Seq<char>) -> bool {
    exists|i: int| 0 <= i < allowed.len() && (#[trigger] allowed[i])@ == s
}

/// Check an order status change: the trimmed status must be one of the
/// configured workflow values.
pub fn check_order_status(requested: &str, allowed: &Vec<String>) -> (r: Result<String, AppError>)
    ensures
        r is Ok <==> listed(allowed@, text::trim(requested@)),
        r matches Ok(s) ==> s@ == text::trim(requested@),
        r matches Err(e) ==> e matches AppError::ValidationError(m) && m@ == "Unknown order status: "@
            + text::trim(requested@),
{
    let status = text::trim_str(requested);
    let mut i: usize = 0;
    while i < allowed.len()
        invariant
            i <= allowed@.len(),
            status@ == text::trim(requested@),
            forall|j: int| 0 <= j < i ==> (#[trigger] allowed@[j])@ != status@,
        decreases allowed@.len() - i,
    {
        if text::str_eq(allowed[i].as_str(), status.as_str()) {
            return Ok(status);
        }
        i = i + 1;
    }
    let mut m = text::owned("Unknown order status: ");
    m.append(status.as_str());
    Err(AppError::ValidationError(m))
}

/// The public feed gate on list and detail reads: an anonymous caller is
/// answered "Not found" while the public feed is switched off; signed-in
/// callers are never stopped here.
pub fn public_feed_gate(anonymous: bool, public_feed_enabled: bool) -> (r: Result<(), AppError>)
    ensures
        r is Ok <==> (!anonymous || public_feed_enabled),
        r matches Err(e) ==> e matches AppError::NotFound(m) && m@ == "Not found"@,
{
    if !anonymous || public_feed_enabled {
        Ok(())
    } else {
        Err(AppError::NotFound(text::owned("Not found")))
    }
}

} // verus!

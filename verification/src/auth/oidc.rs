//! OIDC drift validators, the IdP tier resolution, and role extraction from
//! token claims.
use vstd::prelude::*;
use crate::auth::backend::{AuthError, UserRecord};
use crate::entities::{ROLE_ADMINISTRATOR, ROLE_COMMENTER, ROLE_POSTER};
use crate::text;

verus! {

/// Refuse a login on a row that has not been activated through its invite.
pub fn ensure_activated(row: &UserRecord) -> (r: Result<(), AuthError>)
    ensures
        row.activated_at is None ==> r matches Err(AuthError::NotActivated),
        row.activated_at is Some ==> r is Ok,
{
    if row.activated_at.is_none() {
        return Err(AuthError::NotActivated);
    }
    Ok(())
}

/// Refuse a login when the IdP tier and the stored role differ.
pub fn ensure_role_match(idp_tier: &str, db_role: &str) -> (r: Result<(), AuthError>)
    ensures
        idp_tier@ == db_role@ <==> r is Ok,
        r matches Err(e) ==> e matches AuthError::RoleMismatch { idp, db } && idp@ == idp_tier@
            && db@ == db_role@,
{
    if !text::str_eq(idp_tier, db_role) {
        return Err(AuthError::RoleMismatch { idp: text::owned(idp_tier), db: text::owned(db_role) });
    }
    Ok(())
}

/// Refuse a login when the IdP email and the stored email differ.
pub fn ensure_email_match(idp_email: &str, db_email: &str) -> (r: Result<(), AuthError>)
    ensures
        idp_email@ == db_email@ <==> r is Ok,
        r matches Err(e) ==> e is EmailMismatch,
{
    if !text::str_eq(idp_email, db_email) {
        return Err(AuthError::EmailMismatch);
    }
    Ok(())
}

/// OIDC settings.
#[derive(Clone, Debug)]
pub struct OidcConfig {
    pub enabled: bool,
    pub issuer_url: String,
    pub client_id: String,
    pub client_secret: String,
    pub redirect_uri: String,
    pub scopes: Vec<String>,
    pub role_claim: String,
    pub admin_role: String,
    pub poster_role: String,
}

/// The identity an OIDC exchange yields.
#[derive(Debug, Clone)]
pub struct OidcUserInfo {
    pub sub: String,
    pub email: String,
    pub email_verified: bool,
    pub display_name: Option<String>,
    pub roles: Vec<String>,
}

pub open spec fn has_role(roles: Seq<String>, role: Seq<char>) -> bool {
    exists|i: int| 0 <= i < roles.len() && (#[trigger] roles[i])@ == role
}

/// The tier the IdP roles map to, most privileged first.
pub open spec fn spec_idp_tier(roles: Seq<String>, admin_role: Seq<char>, poster_role: Seq<char>) -> Seq<
    char,
> {
    if has_role(roles, admin_role) {
        ROLE_ADMINISTRATOR@
    } else if has_role(roles, poster_role) {
        ROLE_POSTER@
    } else {
        ROLE_COMMENTER@
    }
}

fn any_role(roles: &[String], role: &str) -> (r: bool)
    ensures
        r == has_role(roles@, role@),
{
    let mut i: usize = 0;
    while i < roles.len()
        invariant
            i <= roles@.len(),
            forall|j: int| 0 <= j < i ==> (#[trigger] roles@[j])@ != role@,
        decreases roles@.len() - i,
    {
        if text::str_eq(roles[i].as_str(), role) {
            return true;
        }
        i = i + 1;
    }
    false
}

/// Resolve the IdP roles to the application tier, most privileged wins. The
/// result is only compared against the stored role, never assigned.
pub fn resolve_idp_tier(roles: &[String], cfg: &OidcConfig) -> (r: &'static str)
    ensures
        r@ == spec_idp_tier(roles@, cfg.admin_role@, cfg.poster_role@),
{
    if any_role(roles, cfg.admin_role.as_str()) {
        ROLE_ADMINISTRATOR
    } else if any_role(roles, cfg.poster_role.as_str()) {
        ROLE_POSTER
    } else {
        ROLE_COMMENTER
    }
}

} // verus!

//! Outbound email: the composed message, the links the emails carry, and
//! the catalog keys chosen for each email. Rendering and delivery belong to
//! the transports.
use vstd::prelude::*;
use crate::entities::{ROLE_ADMINISTRATOR, ROLE_POSTER};
use crate::text;

verus! {

/// A fully composed outbound email, ready for any transport.
pub struct EmailMessage {
    pub from: String,
    pub to: String,
    pub subject: String,
    pub html_body: String,
    pub text_body: String,
}

/// Subject, HTML body and plain-text body of one rendered email.
pub struct EmailParts {
    pub subject: String,
    pub html_body: String,
    pub text_body: String,
}

/// Wrap rendered parts in a message from `from` to `to`.
pub fn compose(from: String, to: String, parts: EmailParts) -> (m: EmailMessage)
    ensures
        m.from == from,
        m.to == to,
        m.subject == parts.subject,
        m.html_body == parts.html_body,
        m.text_body == parts.text_body,
{
    EmailMessage {
        from,
        to,
        subject: parts.subject,
        html_body: parts.html_body,
        text_body: parts.text_body,
    }
}

fn concat3(a: &str, b: &str, c: &str) -> (r: String)
    ensures
        r@ == a@ + b@ + c@,
{
    let mut s = text::owned(a);
    s.append(b);
    s.append(c);
    s
}

/// The invite link: `<site>/invite/<code>`.
pub fn invite_url(site_url: &str, invite_code: &str) -> (r: String)
    ensures
        r@ == site_url@ + "/invite/"@ + invite_code@,
{
    concat3(site_url, "/invite/", invite_code)
}

/// The admin email-verification link.
pub fn verification_url(site_url: &str, token: &str) -> (r: String)
    ensures
        r@ == site_url@ + "/admin/verify-email?token="@ + token@,
{
    concat3(site_url, "/admin/verify-email?token=", token)
}

/// The subscription confirmation link.
pub fn subscription_url(site_url: &str, token: &str) -> (r: String)
    ensures
        r@ == site_url@ + "/api/subscribe/verify?token="@ + token@,
{
    concat3(site_url, "/api/subscribe/verify?token=", token)
}

/// The password reset link.
pub fn reset_url(site_url: &str, token: &str) -> (r: String)
    ensures
        r@ == site_url@ + "/admin/reset-password?token="@ + token@,
{
    concat3(site_url, "/admin/reset-password?token=", token)
}

/// The catalog key of the role label in an invite: administrators and
/// posters by name, every other role as a member.
pub fn invite_role_key(role: &str) -> (r: &'static str)
    ensures
        r@ == (if role@ == ROLE_ADMINISTRATOR@ {
            "roles.administrator"@
        } else if role@ == ROLE_POSTER@ {
            "roles.poster"@
        } else {
            "roles.member"@
        }),
{
    if text::str_eq(role, ROLE_ADMINISTRATOR) {
        "roles.administrator"
    } else if text::str_eq(role, ROLE_POSTER) {
        "roles.poster"
    } else {
        "roles.member"
    }
}

/// The catalog key naming who changed a password.
pub fn password_change_source_key(changed_by_admin: bool) -> (r: &'static str)
    ensures
        r@ == (if changed_by_admin {
            "password_changed.source_admin"@
        } else {
            "password_changed.source_self"@
        }),
{
    if changed_by_admin {
        "password_changed.source_admin"
    } else {
        "password_changed.source_self"
    }
}

} // verus!

use riposte_social::errors::AppError;
use riposte_social::site::{
    auth_config, check_order_status, gate_visibility, oidc_config_from_values, public_feed_gate,
};
use riposte_social::text::split_words;

#[test]
fn gates_per_role() {
    let g = gate_visibility(None);
    assert!(!g.poster_gates && !g.admin_gates);
    let g = gate_visibility(Some("commenter"));
    assert!(!g.poster_gates && !g.admin_gates);
    let g = gate_visibility(Some("poster"));
    assert!(g.poster_gates && !g.admin_gates);
    let g = gate_visibility(Some("administrator"));
    assert!(g.poster_gates && g.admin_gates);
}

#[test]
fn auth_configuration() {
    let c = auth_config(true, Some("https://idp/account".to_string()), "example.com".to_string());
    assert_eq!(c.login_url.as_deref(), Some("/api/auth/oidc/login"));
    assert_eq!(c.account_url.as_deref(), Some("https://idp/account"));
    let c = auth_config(false, None, String::new());
    assert!(!c.oidc_enabled);
    assert_eq!(c.login_url, None);
}

#[test]
fn oidc_defaults() {
    let c = oidc_config_from_values(None, None, None, None, None, None, None, None, None);
    assert!(!c.enabled);
    assert_eq!(c.scopes, vec!["openid", "profile", "email"]);
    assert_eq!(c.role_claim, "realm_access.roles");
    assert_eq!(c.admin_role, "admin");
    assert_eq!(c.poster_role, "poster");
    assert_eq!(c.issuer_url, "");
    let c = oidc_config_from_values(
        Some("TRUE".to_string()),
        Some("https://idp".to_string()),
        Some("client".to_string()),
        Some("secret".to_string()),
        Some("https://app/cb".to_string()),
        Some("  openid\temail ".to_string()),
        Some("groups".to_string()),
        Some("site-admin".to_string()),
        Some("site-poster".to_string()),
    );
    assert!(c.enabled);
    assert_eq!(c.scopes, vec!["openid", "email"]);
    assert_eq!(c.client_secret, "secret");
    assert!(!oidc_config_from_values(Some("yes".to_string()), None, None, None, None, None, None, None, None).enabled);
}

#[test]
fn words() {
    assert_eq!(split_words("  a b\n\nc  "), vec!["a", "b", "c"]);
    assert!(split_words(" \t ").is_empty());
}

#[test]
fn order_statuses() {
    let allowed = vec!["new".to_string(), "done".to_string()];
    assert_eq!(check_order_status(" done ", &allowed).unwrap(), "done");
    match check_order_status("lost", &allowed) {
        Err(AppError::ValidationError(m)) => assert_eq!(m, "Unknown order status: lost"),
        other => panic!("unexpected {:?}", other),
    }
}

#[test]
fn public_feed_gate_stops_only_anonymous_callers() {
    assert!(public_feed_gate(false, false).is_ok());
    assert!(public_feed_gate(false, true).is_ok());
    assert!(public_feed_gate(true, true).is_ok());
    match public_feed_gate(true, false) {
        Err(AppError::NotFound(m)) => assert_eq!(m, "Not found"),
        other => panic!("unexpected {:?}", other),
    }
}

use base64::engine::general_purpose::URL_SAFE_NO_PAD;
use base64::Engine;
use riposte_social::auth::claims::{
    extract_roles_from_claims, extract_roles_from_payload, get, jwt_payload, split_char,
    user_info_from_claims, JsonValue,
};

fn s(x: &str) -> JsonValue {
    JsonValue::Str(x.to_string())
}

fn obj(pairs: Vec<(&str, JsonValue)>) -> JsonValue {
    JsonValue::Object(pairs.into_iter().map(|(k, v)| (k.to_string(), v)).collect())
}

fn keycloak_claims() -> JsonValue {
    obj(vec![
        ("sub", s("abc")),
        (
            "realm_access",
            obj(vec![(
                "roles",
                JsonValue::Array(vec![s("site-admin"), JsonValue::Number("3".to_string()), s("offline")]),
            )]),
        ),
        ("groups", JsonValue::Array(vec![])),
    ])
}

#[test]
fn split_keeps_empty_pieces() {
    assert_eq!(split_char("a.b.c", '.'), vec!["a", "b", "c"]);
    assert_eq!(split_char("", '.'), vec![""]);
    assert_eq!(split_char(".x.", '.'), vec!["", "x", ""]);
}

#[test]
fn member_lookup() {
    let c = keycloak_claims();
    assert!(matches!(get(&c, "sub"), Some(JsonValue::Str(v)) if v == "abc"));
    assert!(get(&c, "missing").is_none());
    assert!(get(&s("x"), "sub").is_none());
}

#[test]
fn roles_along_a_dotted_path() {
    let c = keycloak_claims();
    assert_eq!(extract_roles_from_claims(&c, "realm_access.roles"), vec!["site-admin", "offline"]);
    assert!(extract_roles_from_claims(&c, "realm_access.missing").is_empty());
    assert!(extract_roles_from_claims(&c, "sub").is_empty());
    assert!(extract_roles_from_claims(&c, "nope.roles").is_empty());
    assert!(extract_roles_from_claims(&c, "groups").is_empty());
}

#[test]
fn access_token_roles_need_at_least_one() {
    let c = keycloak_claims();
    assert_eq!(
        extract_roles_from_payload(&c, "realm_access.roles"),
        Some(vec!["site-admin".to_string(), "offline".to_string()])
    );
    assert_eq!(extract_roles_from_payload(&c, "groups"), None);
    assert_eq!(extract_roles_from_payload(&c, "x.y"), None);
}

#[test]
fn jwt_payload_is_the_middle_segment() {
    let body = URL_SAFE_NO_PAD.encode(b"{\"a\":1}");
    let token = format!("h.{}.sig", body);
    assert_eq!(jwt_payload(&token), Some(b"{\"a\":1}".to_vec()));
    assert_eq!(jwt_payload("only.two"), None);
    assert_eq!(jwt_payload("a.b.c.d"), None);
    assert_eq!(jwt_payload("h.***.sig"), None);
}

#[test]
fn user_info() {
    let u = user_info_from_claims(
        "sub1".to_string(),
        Some("a@x.org".to_string()),
        None,
        None,
        Some("ann".to_string()),
        vec![],
        Some(vec!["site-poster".to_string()]),
    )
    .unwrap();
    assert_eq!(u.sub, "sub1");
    assert_eq!(u.email, "a@x.org");
    assert!(!u.email_verified);
    assert_eq!(u.display_name.as_deref(), Some("ann"));
    assert_eq!(u.roles, vec!["site-poster"]);
    let u = user_info_from_claims(
        "sub1".to_string(),
        Some("a@x.org".to_string()),
        Some(true),
        Some("Ann A".to_string()),
        Some("ann".to_string()),
        vec!["site-admin".to_string()],
        Some(vec!["site-poster".to_string()]),
    )
    .unwrap();
    assert!(u.email_verified);
    assert_eq!(u.display_name.as_deref(), Some("Ann A"));
    assert_eq!(u.roles, vec!["site-admin"]);
    let e = user_info_from_claims("s".to_string(), None, None, None, None, vec![], None).unwrap_err();
    assert_eq!(e, "No email claim in ID token");
}

use riposte_social::email::{
    compose, invite_role_key, invite_url, password_change_source_key, reset_url,
    subscription_url, verification_url, EmailParts,
};

#[test]
fn links() {
    assert_eq!(invite_url("https://s.org", "abc"), "https://s.org/invite/abc");
    assert_eq!(
        verification_url("https://s.org", "t1"),
        "https://s.org/admin/verify-email?token=t1"
    );
    assert_eq!(
        subscription_url("https://s.org", "t2"),
        "https://s.org/api/subscribe/verify?token=t2"
    );
    assert_eq!(reset_url("https://s.org", "t3"), "https://s.org/admin/reset-password?token=t3");
}

#[test]
fn catalog_keys() {
    assert_eq!(invite_role_key("administrator"), "roles.administrator");
    assert_eq!(invite_role_key("poster"), "roles.poster");
    assert_eq!(invite_role_key("commenter"), "roles.member");
    assert_eq!(invite_role_key("anything"), "roles.member");
    assert_eq!(password_change_source_key(true), "password_changed.source_admin");
    assert_eq!(password_change_source_key(false), "password_changed.source_self");
}

#[test]
fn composing_keeps_every_part() {
    let m = compose(
        "from@s.org".to_string(),
        "to@s.org".to_string(),
        EmailParts {
            subject: "S".to_string(),
            html_body: "<p>H</p>".to_string(),
            text_body: "T".to_string(),
        },
    );
    assert_eq!(m.from, "from@s.org");
    assert_eq!(m.to, "to@s.org");
    assert_eq!(m.subject, "S");
    assert_eq!(m.html_body, "<p>H</p>");
    assert_eq!(m.text_body, "T");
}

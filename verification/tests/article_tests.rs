use riposte_social::articles::{
    check_visibility, compute_reading_time_minutes, creation_visibility, derive_excerpt, excerpt,
    html_to_plain_text, media_url, patched_reference, plan_publication, refresh_excerpt, stored_body, validate_optional_string, validate_title,
};
use riposte_social::entities::effective_visibility;
use riposte_social::errors::AppError;

fn validation(r: Result<impl std::fmt::Debug, AppError>) -> String {
    match r {
        Err(AppError::ValidationError(m)) => m,
        other => panic!("unexpected {:?}", other),
    }
}

#[test]
fn reading_time_rounds_up_with_a_minimum_of_one() {
    assert_eq!(compute_reading_time_minutes(""), 1);
    assert_eq!(compute_reading_time_minutes("one two three"), 1);
    assert_eq!(compute_reading_time_minutes(&"w ".repeat(200)), 1);
    assert_eq!(compute_reading_time_minutes(&"w ".repeat(201)), 2);
    assert_eq!(compute_reading_time_minutes(&"w\n".repeat(1000)), 5);
}

#[test]
fn plain_text_of_html() {
    assert_eq!(html_to_plain_text("<p>Hello <b>world</b></p>"), "Hello world");
    // Entities are decoded one after another, so an escaped entity is decoded twice.
    assert_eq!(html_to_plain_text("a &amp;lt; b &#39;c&#39;"), "a &lt; b 'c'");
    assert_eq!(html_to_plain_text("a &lt; b &amp; c"), "a < b & c");
    assert_eq!(html_to_plain_text("x &gt; y &quot;z&quot;"), "x > y \"z\"");
}

#[test]
fn derived_excerpts() {
    assert_eq!(derive_excerpt("   ", "<p>ignored</p>"), None);
    assert_eq!(derive_excerpt("body", "<p>  </p>"), None);
    assert_eq!(
        derive_excerpt("body", "<p>Hello\n\n  <em>world</em></p>"),
        Some("Hello world".to_string())
    );
    let long_html = format!("<p>{}</p>", "word ".repeat(60));
    let e = derive_excerpt("body", &long_html).unwrap();
    assert_eq!(e.chars().count(), 200);
    assert!(e.ends_with("word\u{2026}"));
}

#[test]
fn short_excerpt_counts_characters() {
    assert_eq!(excerpt("héllo", 10), "héllo");
    assert_eq!(excerpt("héllo wörld", 5), "héllo...");
}

#[test]
fn titles() {
    assert_eq!(validate_title("  My title ", 200).unwrap(), "My title");
    assert_eq!(validation(validate_title("   ", 200)), "Article title is required");
    assert_eq!(validation(validate_title("abcdef", 5)), "Title exceeds 5-character limit");
}

#[test]
fn optional_strings() {
    assert_eq!(validate_optional_string("subtitle", None, 240).unwrap(), None);
    assert_eq!(validate_optional_string("subtitle", Some("  "), 240).unwrap(), None);
    assert_eq!(
        validate_optional_string("subtitle", Some(" sub "), 240).unwrap(),
        Some("sub".to_string())
    );
    assert_eq!(
        validation(validate_optional_string("excerpt", Some(&"x".repeat(601)), 600)),
        "excerpt exceeds 600-character limit"
    );
}

#[test]
fn visibility_checks() {
    assert!(check_visibility(None).is_ok());
    assert!(check_visibility(Some("posters")).is_ok());
    assert_eq!(validation(check_visibility(Some("friends"))), "Invalid visibility 'friends'");
    assert_eq!(creation_visibility(true, Some("public")).unwrap(), "private");
    assert_eq!(creation_visibility(false, None).unwrap(), "public");
    assert_eq!(creation_visibility(false, Some("commenters")).unwrap(), "commenters");
    assert_eq!(validation(creation_visibility(false, Some("x"))), "Invalid visibility 'x'");
}

#[test]
fn publishing_a_draft() {
    let p = plan_publication(true, "private", Some(false), None).unwrap();
    assert!(!p.is_draft);
    assert_eq!(p.visibility, "public");
    assert!(p.bump_published_at);
    let p = plan_publication(true, "private", Some(false), Some("posters")).unwrap();
    assert_eq!(p.visibility, "posters");
    assert!(p.bump_published_at);
}

#[test]
fn drafts_stay_private() {
    let p = plan_publication(true, "private", None, Some("public")).unwrap();
    assert!(p.is_draft);
    assert_eq!(p.visibility, "private");
    assert!(!p.bump_published_at);
}

#[test]
fn republishing_keeps_the_publication_time() {
    let p = plan_publication(false, "commenters", Some(false), None).unwrap();
    assert!(!p.bump_published_at);
    assert_eq!(p.visibility, "commenters");
    let p = plan_publication(false, "commenters", None, Some("public")).unwrap();
    assert_eq!(p.visibility, "public");
}

#[test]
fn published_articles_cannot_return_to_draft() {
    match plan_publication(false, "public", Some(true), None) {
        Err(AppError::ValidationError(m)) => assert_eq!(m, "Cannot un-publish an article"),
        other => panic!("unexpected {:?}", other.map(|p| p.visibility)),
    }
}

#[test]
fn cover_url_and_effective_visibility() {
    assert_eq!(
        media_url(0x67e55044_10b1_426f_9247_bb680e5fe0c8),
        "/media/67e55044-10b1-426f-9247-bb680e5fe0c8"
    );
    assert_eq!(effective_visibility(Some("posters"), "public"), "posters");
    assert_eq!(effective_visibility(None, "public"), "public");
}

#[test]
fn patch_precedence_and_stored_body() {
    assert_eq!(patched_reference(true, Some(5), Some(4)), None);
    assert_eq!(patched_reference(false, Some(5), Some(4)), Some(5));
    assert_eq!(patched_reference(false, None, Some(4)), Some(4));
    assert_eq!(stored_body("  text \n\t"), "  text");
    assert!(refresh_excerpt(true, false, false));
    assert!(!refresh_excerpt(true, true, false));
    assert!(!refresh_excerpt(true, false, true));
    assert!(!refresh_excerpt(false, false, false));
}

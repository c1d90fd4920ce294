use riposte_social::categories::{can_create_category, can_manage_category, slugify, validate_slug_shape};

#[test]
fn slugify_lowers_and_dashes() {
    assert_eq!(slugify("Family Photos!"), "family-photos");
    assert_eq!(slugify("Vacation 2024"), "vacation-2024");
}

#[test]
fn slugify_collapses_runs() {
    assert_eq!(slugify("a   b"), "a-b");
    assert_eq!(slugify("--leading-and-trailing--"), "leading-and-trailing");
}

#[test]
fn validate_slug_shape_accepts_valid() {
    validate_slug_shape("ab").unwrap();
    validate_slug_shape("family-photos-2024").unwrap();
}

#[test]
fn validate_slug_shape_rejects() {
    assert!(validate_slug_shape("a").is_err());
    assert!(validate_slug_shape("Foo").is_err());
    assert!(validate_slug_shape("foo bar").is_err());
    assert!(validate_slug_shape(&"a".repeat(51)).is_err());
}

#[test]
fn validate_slug_shape_messages() {
    assert_eq!(validate_slug_shape("a").unwrap_err(), "Slug must be 2-50 characters");
    assert_eq!(
        validate_slug_shape("Foo").unwrap_err(),
        "Slug may only contain lowercase ASCII letters, digits, and hyphens"
    );
}

#[test]
fn slugify_truncates_to_fifty() {
    let s = slugify(&"b".repeat(80));
    assert_eq!(s.chars().count(), 50);
    assert!(validate_slug_shape(&s).is_ok());
}

#[test]
fn slugify_keeps_non_ascii_out() {
    assert_eq!(slugify("Café Über"), "caf-ber");
    assert_eq!(slugify("!!!"), "");
}

#[test]
fn slugify_output_is_a_fixed_point() {
    let once = slugify("Summer -- Trip 2023!!");
    assert_eq!(once, "summer-trip-2023");
    assert_eq!(slugify(&once), once);
}

#[test]
fn category_permissions() {
    assert!(can_create_category("administrator", false));
    assert!(can_create_category("poster", true));
    assert!(!can_create_category("poster", false));
    assert!(!can_create_category("commenter", true));
    assert!(can_manage_category("administrator", 1, None, false));
    assert!(can_manage_category("poster", 7, Some(7), true));
    assert!(!can_manage_category("poster", 7, Some(8), true));
    assert!(!can_manage_category("poster", 7, None, true));
    assert!(!can_manage_category("poster", 7, Some(7), false));
    assert!(!can_manage_category("commenter", 7, Some(7), true));
}

#[test]
fn slugify_is_stable_on_its_own_output() {
    for name in ["Family Photos!", "  Mixed CASE -- text  ", "2024 / Trips", "ünïcödé name"] {
        let once = slugify(name);
        assert_eq!(slugify(&once), once);
    }
    // The 50-character cut can end on a dash, which a second pass trims.
    let name = format!("{} b", "a".repeat(49));
    let once = slugify(&name);
    assert_eq!(once.len(), 50);
    assert!(once.ends_with('-'));
    assert_eq!(slugify(&once), "a".repeat(49));
}

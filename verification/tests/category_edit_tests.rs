use riposte_social::categories::{
    apply_category_patch, check_category_patch, check_member_removal, plan_member_list,
    prepare_new_category, require_category_permission, CategoryAction, CategoryRecord,
    CreateCategoryRequest, UpdateCategoryRequest,
};
use riposte_social::errors::AppError;

fn create(name: &str, slug: Option<&str>) -> CreateCategoryRequest {
    CreateCategoryRequest {
        name: name.to_string(),
        slug: slug.map(|s| s.to_string()),
        ordinal: None,
        color: None,
        visibility: None,
    }
}

fn message<T>(r: Result<T, AppError>) -> String {
    match r {
        Err(AppError::ValidationError(m)) => m,
        Err(other) => panic!("unexpected {:?}", other),
        Ok(_) => panic!("unexpected success"),
    }
}

#[test]
fn creation_defaults() {
    let c = prepare_new_category(&create("  Family Photos ", None)).unwrap();
    assert_eq!(c.name, "Family Photos");
    assert_eq!(c.slug, "family-photos");
    assert_eq!(c.ordinal, 0);
    assert_eq!(c.color, None);
    assert_eq!(c.visibility, "public");
}

#[test]
fn creation_with_explicit_values() {
    let mut r = create("Trips", Some("  my-trips "));
    r.ordinal = Some(4);
    r.color = Some("#ff0000".to_string());
    r.visibility = Some(" posters ".to_string());
    let c = prepare_new_category(&r).unwrap();
    assert_eq!(c.slug, "my-trips");
    assert_eq!(c.ordinal, 4);
    assert_eq!(c.color.as_deref(), Some("#ff0000"));
    assert_eq!(c.visibility, "posters");
    let mut r = create("Trips", None);
    r.color = Some(String::new());
    assert_eq!(prepare_new_category(&r).unwrap().color, None);
}

#[test]
fn creation_errors() {
    assert_eq!(message(prepare_new_category(&create("   ", None))), "Name cannot be empty");
    assert_eq!(
        message(prepare_new_category(&create(&"n".repeat(81), None))),
        "Name must be at most 80 characters"
    );
    assert_eq!(message(prepare_new_category(&create("Ok", Some("Bad Slug")))), "Slug may only contain lowercase ASCII letters, digits, and hyphens");
    assert_eq!(message(prepare_new_category(&create("Ok", Some("x")))), "Slug must be 2-50 characters");
    assert_eq!(
        message(prepare_new_category(&create("!!", None))),
        "Could not derive a slug from name. Provide one explicitly."
    );
}

#[test]
fn patch_checks() {
    let none = UpdateCategoryRequest { name: None, slug: None, ordinal: None, color: None, visibility: None };
    assert!(check_category_patch(&none, true).is_ok());
    let p = UpdateCategoryRequest { slug: Some(" A ".to_string()), ..none };
    assert_eq!(message(check_category_patch(&p, true)), "Slug must be 2-50 characters");
    let p = UpdateCategoryRequest { name: None, slug: None, ordinal: None, color: None, visibility: Some("nope".to_string()) };
    assert_eq!(message(check_category_patch(&p, false)), "Invalid visibility 'nope'");
    let p = UpdateCategoryRequest { name: Some("  ".to_string()), slug: None, ordinal: None, color: None, visibility: None };
    assert_eq!(message(check_category_patch(&p, true)), "Name cannot be empty");
}

#[test]
fn patch_application() {
    let mut row = CategoryRecord {
        id: 1,
        name: "Old".to_string(),
        slug: "old".to_string(),
        ordinal: 2,
        color: Some("#000".to_string()),
        visibility: "public".to_string(),
        created_by: Some(5),
    };
    let p = UpdateCategoryRequest {
        name: Some(" New ".to_string()),
        slug: None,
        ordinal: Some(7),
        color: Some("   ".to_string()),
        visibility: Some(" posters".to_string()),
    };
    apply_category_patch(&mut row, &p);
    assert_eq!(row.name, "New");
    assert_eq!(row.slug, "old");
    assert_eq!(row.ordinal, 7);
    assert_eq!(row.color, None);
    assert_eq!(row.visibility, "posters");
    assert_eq!(row.created_by, Some(5));
}

#[test]
fn permission_messages() {
    assert!(require_category_permission(CategoryAction::Create, "administrator", 1, None, false).is_ok());
    assert!(require_category_permission(CategoryAction::Create, "poster", 1, None, true).is_ok());
    match require_category_permission(CategoryAction::Create, "poster", 1, None, false) {
        Err(AppError::Forbidden(m)) => assert_eq!(m, "Not allowed to create categories"),
        other => panic!("unexpected {:?}", other),
    }
    assert!(require_category_permission(CategoryAction::Manage, "poster", 7, Some(7), true).is_ok());
    match require_category_permission(CategoryAction::Delete, "poster", 7, Some(8), true) {
        Err(AppError::Forbidden(m)) => assert_eq!(m, "Not allowed to delete this category"),
        other => panic!("unexpected {:?}", other),
    }
    match require_category_permission(CategoryAction::Modify, "reader", 7, Some(7), true) {
        Err(AppError::Forbidden(m)) => assert_eq!(m, "Not allowed to modify this category"),
        other => panic!("unexpected {:?}", other),
    }
    match require_category_permission(CategoryAction::Manage, "poster", 7, Some(7), false) {
        Err(AppError::Forbidden(m)) => assert_eq!(m, "Not allowed to manage this category"),
        other => panic!("unexpected {:?}", other),
    }
}

#[test]
fn member_list_is_sorted_and_deduplicated() {
    let planned = plan_member_list(&vec![5, 3, 5, 9, 3], Some(9)).unwrap();
    assert_eq!(planned, vec![3, 5, 9]);
    assert_eq!(plan_member_list(&vec![], None).unwrap(), Vec::<u128>::new());
    assert_eq!(
        message(plan_member_list(&vec![1, 2], Some(3))),
        "the category creator cannot be removed"
    );
}

#[test]
fn owner_cannot_be_removed() {
    assert!(check_member_removal(Some(4), 5).is_ok());
    assert!(check_member_removal(None, 5).is_ok());
    assert_eq!(message(check_member_removal(Some(4), 4)), "the category creator cannot be removed");
}

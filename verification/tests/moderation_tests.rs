use riposte_social::errors::AppError;
use riposte_social::moderation::{check_bulk_delete, requested_page, BulkDeleteRequest, ModerationQuery};

#[test]
fn page_defaults() {
    let q = ModerationQuery { page: None, per_page: None, include_deleted: false };
    assert_eq!(requested_page(&q), (1, 50));
    let q = ModerationQuery { page: Some(3), per_page: Some(10), include_deleted: true };
    assert_eq!(requested_page(&q), (3, 10));
}

#[test]
fn bulk_delete_bounds() {
    assert!(check_bulk_delete(&BulkDeleteRequest { comment_ids: vec![1] }).is_ok());
    assert!(check_bulk_delete(&BulkDeleteRequest { comment_ids: (0..200).collect() }).is_ok());
    match check_bulk_delete(&BulkDeleteRequest { comment_ids: vec![] }) {
        Err(AppError::ValidationError(m)) => assert_eq!(m, "comment_ids cannot be empty"),
        other => panic!("unexpected {:?}", other),
    }
    match check_bulk_delete(&BulkDeleteRequest { comment_ids: (0..201).collect() }) {
        Err(AppError::ValidationError(m)) => assert_eq!(m, "At most 200 comment_ids per request"),
        other => panic!("unexpected {:?}", other),
    }
}

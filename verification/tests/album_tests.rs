use riposte_social::albums::{
    album_category_filter, album_description, album_media_url, apply_album_media_patch,
    cover_first_ordinals, validate_album_name, AlbumCategoryStep, AlbumMediaRecord,
    UpdateAlbumMediaRequest,
};
use riposte_social::errors::AppError;

#[test]
fn cover_promotion_renumbers() {
    let out = cover_first_ordinals(&vec![10, 20, 30, 40], 30);
    assert_eq!(out, vec![(30, 0), (10, 1), (20, 2), (40, 3)]);
    // A cover that is not among the items still comes first.
    let out = cover_first_ordinals(&vec![1, 2], 9);
    assert_eq!(out, vec![(9, 0), (1, 1), (2, 2)]);
}

#[test]
fn category_filter() {
    assert!(matches!(album_category_filter(None), AlbumCategoryStep::Any));
    assert!(matches!(album_category_filter(Some(" uncategorized ")), AlbumCategoryStep::Uncategorized));
    match album_category_filter(Some("  trips ")) {
        AlbumCategoryStep::LookUp(s) => assert_eq!(s, "trips"),
        other => panic!("unexpected {:?}", other),
    }
}

#[test]
fn descriptions_and_urls() {
    assert_eq!(album_description(String::new()), None);
    assert_eq!(album_description("d".to_string()), Some("d".to_string()));
    assert_eq!(
        album_media_url(0x67e55044_10b1_426f_9247_bb680e5fe0c8),
        "/album-media/67e55044-10b1-426f-9247-bb680e5fe0c8"
    );
}

#[test]
fn names() {
    assert_eq!(validate_album_name("  Summer ", 10).unwrap(), "Summer");
    match validate_album_name("   ", 10) {
        Err(AppError::ValidationError(m)) => assert_eq!(m, "name cannot be empty"),
        other => panic!("unexpected {:?}", other),
    }
    match validate_album_name("abcdefghijk", 10) {
        Err(AppError::ValidationError(m)) => assert_eq!(m, "name exceeds 10-character limit"),
        other => panic!("unexpected {:?}", other),
    }
}

#[test]
fn item_patch() {
    let mut m = AlbumMediaRecord { id: 1, caption: Some("old".to_string()), ordinal: 3 };
    apply_album_media_patch(&mut m, &UpdateAlbumMediaRequest { caption: Some("  new ".to_string()), ordinal: None });
    assert_eq!(m.caption.as_deref(), Some("new"));
    assert_eq!(m.ordinal, 3);
    apply_album_media_patch(&mut m, &UpdateAlbumMediaRequest { caption: Some("  ".to_string()), ordinal: Some(0) });
    assert_eq!(m.caption, None);
    assert_eq!(m.ordinal, 0);
}

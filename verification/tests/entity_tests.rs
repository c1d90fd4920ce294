use riposte_social::entities::{stamp_before_save, RowTimestamps};

#[test]
fn insert_stamps_both_times() {
    let mut row = RowTimestamps { created_at: 5, updated_at: 6 };
    stamp_before_save(&mut row, 100, true);
    assert_eq!(row.created_at, 100);
    assert_eq!(row.updated_at, 100);
}

#[test]
fn update_keeps_creation_time() {
    let mut row = RowTimestamps { created_at: 5, updated_at: 6 };
    stamp_before_save(&mut row, 100, false);
    assert_eq!(row.created_at, 5);
    assert_eq!(row.updated_at, 100);
}

use riposte_social::paging::{
    build_cursor, next_cursor, page_limit, parse_cursor, rsplit_once, take_page,
};

#[test]
fn split_at_last_separator() {
    assert_eq!(rsplit_once("a_b_c", '_'), Some(("a_b".to_string(), "c".to_string())));
    assert_eq!(rsplit_once("abc", '_'), None);
}

#[test]
fn cursors_round_trip() {
    let c = build_cursor("2024-01-02T03:04:05+00:00", "67e55044-10b1-426f-9247-bb680e5fe0c8");
    assert_eq!(c, "2024-01-02T03:04:05+00:00_67e55044-10b1-426f-9247-bb680e5fe0c8");
    let (t, id) = parse_cursor(&c).unwrap();
    assert_eq!(t, (1704164645, 0, 0));
    assert_eq!(id, 0x67e55044_10b1_426f_9247_bb680e5fe0c8);
}

#[test]
fn bad_cursors_are_ignored() {
    assert_eq!(parse_cursor("no-separator"), None);
    assert_eq!(parse_cursor("yesterday_67e55044-10b1-426f-9247-bb680e5fe0c8"), None);
    assert_eq!(parse_cursor("2024-01-02T03:04:05+00:00_not-a-uuid"), None);
}

#[test]
fn next_page_cursor() {
    assert_eq!(next_cursor(Some(((1704164645, 0, 0), 1)), false), None);
    assert_eq!(next_cursor(None, true), None);
    let c = next_cursor(Some(((1704164645, 0, 0), 1)), true).unwrap();
    assert_eq!(c, "2024-01-02T03:04:05+00:00_00000000-0000-0000-0000-000000000001");
    assert_eq!(parse_cursor(&c), Some(((1704164645, 0, 0), 1)));
}

#[test]
fn limits_and_pages() {
    assert_eq!(page_limit(None, 20, 100), 20);
    assert_eq!(page_limit(Some(0), 20, 100), 1);
    assert_eq!(page_limit(Some(500), 20, 100), 100);
    let (page, more) = take_page(vec![1, 2, 3], 2);
    assert_eq!(page, vec![1, 2]);
    assert!(more);
    let (page, more) = take_page(vec![1, 2], 2);
    assert_eq!(page, vec![1, 2]);
    assert!(!more);
}

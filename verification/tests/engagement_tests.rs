use riposte_social::engagement::{
    check_comment_access, comment_engagement_from_rows, media_engagement_from_rows,
    post_engagement_from_rows, total_reactions, validate_comment_body, CommentAction,
};
use riposte_social::errors::AppError;
use std::collections::HashMap;

fn counts_of(v: &[(String, i64)]) -> HashMap<String, i64> {
    v.iter().cloned().collect()
}

#[test]
fn media_rows_are_grouped_per_id() {
    let counts = vec![
        (1u128, "like".to_string(), 3i64),
        (2u128, "love".to_string(), 1i64),
        (1u128, "love".to_string(), 2i64),
    ];
    let mine = vec![(1u128, "like".to_string()), (1u128, "love".to_string())];
    let comments = vec![(2u128, 7i64), (3u128, 1i64)];
    let out = media_engagement_from_rows(&counts, &mine, &comments);
    assert_eq!(out.len(), 3);
    let by_id: HashMap<u128, _> = out.into_iter().collect();
    let one = &by_id[&1];
    assert_eq!(counts_of(&one.reaction_counts), HashMap::from([("like".to_string(), 3), ("love".to_string(), 2)]));
    assert_eq!(one.viewer_reaction_kinds, vec!["like".to_string(), "love".to_string()]);
    assert_eq!(one.comment_count, 0);
    let two = &by_id[&2];
    assert_eq!(counts_of(&two.reaction_counts), HashMap::from([("love".to_string(), 1)]));
    assert!(two.viewer_reaction_kinds.is_empty());
    assert_eq!(two.comment_count, 7);
    let three = &by_id[&3];
    assert!(three.reaction_counts.is_empty());
    assert_eq!(three.comment_count, 1);
}

#[test]
fn no_rows_no_entries() {
    assert!(media_engagement_from_rows(&vec![], &vec![], &vec![]).is_empty());
    assert!(comment_engagement_from_rows(&vec![], &vec![]).is_empty());
}

#[test]
fn a_repeated_kind_keeps_one_entry_with_the_last_count() {
    let counts = vec![(9u128, "like".to_string(), 1i64), (9u128, "like".to_string(), 4i64)];
    let out = comment_engagement_from_rows(&counts, &vec![]);
    assert_eq!(out.len(), 1);
    assert_eq!(out[0].1.reaction_counts, vec![("like".to_string(), 4)]);
}

#[test]
fn comment_summaries() {
    let counts = vec![(5u128, "laugh".to_string(), 2i64)];
    let mine = vec![(6u128, "like".to_string())];
    let out = comment_engagement_from_rows(&counts, &mine);
    let by_id: HashMap<u128, _> = out.into_iter().collect();
    assert_eq!(by_id.len(), 2);
    assert_eq!(counts_of(&by_id[&5].reaction_counts), HashMap::from([("laugh".to_string(), 2)]));
    assert_eq!(by_id[&6].viewer_reaction_kinds, vec!["like".to_string()]);
}

#[test]
fn post_summaries_keep_top_comments_in_row_order() {
    let counts = vec![(1u128, "like".to_string(), 1i64)];
    let comments = vec![(1u128, 4i64)];
    let top = vec![(1u128, "newest"), (2u128, "only"), (1u128, "older")];
    let out = post_engagement_from_rows(&counts, &vec![], &comments, top);
    let by_id: HashMap<u128, _> = out.into_iter().collect();
    assert_eq!(by_id.len(), 2);
    assert_eq!(by_id[&1].top_comments, vec!["newest", "older"]);
    assert_eq!(by_id[&1].comment_count, 4);
    assert_eq!(by_id[&2].top_comments, vec!["only"]);
    assert_eq!(by_id[&2].comment_count, 0);
    assert!(by_id[&2].reaction_counts.is_empty());
}

#[test]
fn comment_bodies() {
    assert_eq!(validate_comment_body("  hi  ").unwrap(), "hi");
    match validate_comment_body(" \n ") {
        Err(AppError::ValidationError(m)) => assert_eq!(m, "Comment body cannot be empty"),
        other => panic!("unexpected {:?}", other),
    }
    assert!(validate_comment_body(&"é".repeat(4000)).is_ok());
    match validate_comment_body(&"x".repeat(4001)) {
        Err(AppError::ValidationError(m)) => assert_eq!(m, "Comment exceeds 4000-character limit"),
        other => panic!("unexpected {:?}", other),
    }
}

#[test]
fn comment_access() {
    for (found, parent) in [(false, true), (true, false), (false, false)] {
        match check_comment_access(found, parent, 1, 1, "administrator", CommentAction::Edit) {
            Err(AppError::NotFound(m)) => assert_eq!(m, "Comment not found"),
            other => panic!("unexpected {:?}", other),
        }
    }
    assert!(check_comment_access(true, true, 7, 7, "commenter", CommentAction::Delete).is_ok());
    assert!(check_comment_access(true, true, 7, 8, "administrator", CommentAction::Delete).is_ok());
    match check_comment_access(true, true, 7, 8, "poster", CommentAction::Delete) {
        Err(AppError::Forbidden(m)) => {
            assert_eq!(m, "Only the comment author or an administrator can delete this comment")
        }
        other => panic!("unexpected {:?}", other),
    }
    match check_comment_access(true, true, 7, 8, "commenter", CommentAction::Edit) {
        Err(AppError::Forbidden(m)) => {
            assert_eq!(m, "Only the comment author or an administrator can edit this comment")
        }
        other => panic!("unexpected {:?}", other),
    }
}

#[test]
fn total_reactions_sums_every_kind() {
    assert_eq!(total_reactions(&vec![3, 4, 5]), 12);
    assert_eq!(total_reactions(&vec![]), 0);
}

//! Stored value vocabularies (roles, post visibility, content languages,
//! import-job states) and the plain record of a user row.
use vstd::prelude::*;
use crate::text;

verus! {

/// Role values stored in the `role` column.
pub const ROLE_ADMINISTRATOR: &'static str = "administrator";

pub const ROLE_POSTER: &'static str = "poster";

pub const ROLE_COMMENTER: &'static str = "commenter";

/// Visibility tiers of a post.
pub const VISIBILITY_PUBLIC: &'static str = "public";

pub const VISIBILITY_COMMENTERS: &'static str = "commenters";

pub const VISIBILITY_POSTERS: &'static str = "posters";

pub const VISIBILITY_PRIVATE: &'static str = "private";

/// Full-text-search configurations stored in `content_lang`.
pub const CONTENT_LANG_ENGLISH: &'static str = "english";

pub const CONTENT_LANG_SPANISH: &'static str = "spanish";

pub const CONTENT_LANG_FRENCH: &'static str = "french";

pub const CONTENT_LANG_GERMAN: &'static str = "german";

pub const CONTENT_LANG_CHINESE: &'static str = "chinese";

/// Import-job kinds and lifecycle states.
pub const KIND_FACEBOOK: &'static str = "facebook";

pub const STATUS_QUEUED: &'static str = "queued";

pub const STATUS_RUNNING: &'static str = "running";

pub const STATUS_SUCCEEDED: &'static str = "succeeded";

pub const STATUS_FAILED: &'static str = "failed";

pub const STATUS_CANCELLED: &'static str = "cancelled";

pub open spec fn spec_is_valid_visibility(v: Seq<char>) -> bool {
    v == VISIBILITY_PUBLIC@ || v == VISIBILITY_COMMENTERS@ || v == VISIBILITY_POSTERS@ || v
        == VISIBILITY_PRIVATE@
}

/// True when `v` is one of the four visibility tiers.
pub fn is_valid_visibility(v: &str) -> (r: bool)
    ensures
        r == spec_is_valid_visibility(v@),
{
    text::str_eq(v, VISIBILITY_PUBLIC) || text::str_eq(v, VISIBILITY_COMMENTERS) || text::str_eq(
        v,
        VISIBILITY_POSTERS,
    ) || text::str_eq(v, VISIBILITY_PRIVATE)
}

pub open spec fn spec_is_valid_content_lang(v: Seq<char>) -> bool {
    v == CONTENT_LANG_ENGLISH@ || v == CONTENT_LANG_SPANISH@ || v == CONTENT_LANG_FRENCH@ || v
        == CONTENT_LANG_GERMAN@ || v == CONTENT_LANG_CHINESE@
}

/// True when `v` is one of the allowed content languages.
pub fn is_valid_content_lang(v: &str) -> (r: bool)
    ensures
        r == spec_is_valid_content_lang(v@),
{
    text::str_eq(v, CONTENT_LANG_ENGLISH) || text::str_eq(v, CONTENT_LANG_SPANISH)
        || text::str_eq(v, CONTENT_LANG_FRENCH) || text::str_eq(v, CONTENT_LANG_GERMAN)
        || text::str_eq(v, CONTENT_LANG_CHINESE)
}

pub open spec fn spec_is_terminal_status(s: Seq<char>) -> bool {
    s == STATUS_SUCCEEDED@ || s == STATUS_FAILED@ || s == STATUS_CANCELLED@
}

/// True for the import-job states from which a job never moves on.
pub fn is_terminal_status(status: &str) -> (r: bool)
    ensures
        r == spec_is_terminal_status(status@),
{
    text::str_eq(status, STATUS_SUCCEEDED) || text::str_eq(status, STATUS_FAILED) || text::str_eq(
        status,
        STATUS_CANCELLED,
    )
}

/// The two timestamps every saved row carries.
pub struct RowTimestamps {
    pub created_at: i64,
    pub updated_at: i64,
}

/// Stamp a row about to be saved at `now`: `updated_at` on every save,
/// `created_at` only when the row is first inserted.
pub fn stamp_before_save(row: &mut RowTimestamps, now: i64, insert: bool)
    ensures
        final(row).updated_at == now,
        final(row).created_at == if insert { now } else { old(row).created_at },
{
    if insert {
        row.created_at = now;
    }
    row.updated_at = now;
}

/// The visibility a post is actually held to: its category's when it has
/// one, else its own.
pub fn effective_visibility(category_visibility: Option<&str>, own: &str) -> (r: String)
    ensures
        r@ == match category_visibility {
            Some(c) => c@,
            None => own@,
        },
{
    match category_visibility {
        Some(c) => text::owned(c),
        None => text::owned(own),
    }
}

} // verus!

//! Comment moderation: the list query's defaults and the bounds of a bulk
//! soft-delete.
use vstd::prelude::*;
use crate::errors::AppError;
use crate::text;

verus! {

/// Largest number of comments one bulk delete may name.
pub const MAX_BULK_DELETE: usize = 200;

/// Query of the comment moderation list.
pub struct ModerationQuery {
    pub page: Option<u64>,
    pub per_page: Option<u64>,
    /// When true, soft-deleted comments are listed too.
    pub include_deleted: bool,
}

pub struct BulkDeleteResponse {
    /// Rows that went from live to soft-deleted in this call.
    pub deleted: u64,
}

/// Comments to soft-delete at once.
pub struct BulkDeleteRequest {
    pub comment_ids: Vec<u128>,
}

/// The page and page size a moderation query asks for: page 1 and 50 rows
/// when unset.
pub fn requested_page(q: &ModerationQuery) -> (r: (u64, u64))
    ensures
        r.0 == (match q.page {
            Some(p) => p,
            None => 1u64,
        }),
        r.1 == (match q.per_page {
            Some(p) => p,
            None => 50u64,
        }),
{
    (q.page.unwrap_or(1), q.per_page.unwrap_or(50))
}

/// A bulk delete names at least one and at most 200 comments.
pub fn check_bulk_delete(req: &BulkDeleteRequest) -> (r: Result<(), AppError>)
    ensures
        r is Ok <==> 0 < req.comment_ids@.len() <= MAX_BULK_DELETE,
        req.comment_ids@.len() == 0 ==> (r matches Err(e) && e matches AppError::ValidationError(m)
            && m@ == "comment_ids cannot be empty"@),
        req.comment_ids@.len() > MAX_BULK_DELETE ==> (r matches Err(e) && e matches AppError::ValidationError(m)
            && m@ == "At most 200 comment_ids per request"@),
{
    if req.comment_ids.len() == 0 {
        return Err(AppError::ValidationError(text::owned("comment_ids cannot be empty")));
    }
    if req.comment_ids.len() > MAX_BULK_DELETE {
        return Err(AppError::ValidationError(text::owned("At most 200 comment_ids per request")));
    }
    Ok(())
}

} // verus!

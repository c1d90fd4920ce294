//! Albums: name checks, the category filter of the album list, the cover
//! promotion order, and the patch of one album item.
use vstd::prelude::*;
use crate::articles;
use crate::errors::AppError;
use crate::paging;
use crate::text;

verus! {

/// Page size of the album list: default and maximum.
pub const ALBUMS_LIMIT_DEFAULT: u64 = 20;

pub const ALBUMS_LIMIT_MAX: u64 = 100;

/// Patch of one album item.
pub struct UpdateAlbumMediaRequest {
    pub caption: Option<String>,
    pub ordinal: Option<i32>,
}

/// The plain values of an album item that a patch changes.
pub struct AlbumMediaRecord {
    pub id: u128,
    pub caption: Option<String>,
    pub ordinal: i32,
}

/// Apply a patch to an album item: the caption trimmed (an empty one
/// clears it), the ordinal as given.
pub fn apply_album_media_patch(media: &mut AlbumMediaRecord, req: &UpdateAlbumMediaRequest)
    ensures
        final(media).id == old(media).id,
        (match final(media).caption {
            Some(c) => Some(c@),
            None => None,
        }) == (match req.caption {
            Some(c) => if text::trim(c@).len() == 0 {
                None
            } else {
                Some(text::trim(c@))
            },
            None => match old(media).caption {
                Some(c) => Some(c@),
                None => None,
            },
        }),
        final(media).ordinal == (match req.ordinal {
            Some(o) => o,
            None => old(media).ordinal,
        }),
{
    if let Some(c) = &req.caption {
        let t = text::trim_str(c.as_str());
        media.caption = if t.as_str().is_empty() {
            None
        } else {
            Some(t)
        };
    }
    if let Some(o) = req.ordinal {
        media.ordinal = o;
    }
}

/// Check an album's new name: trimmed, not empty, at most `max_len`
/// characters.
pub fn validate_album_name(input: &str, max_len: usize) -> (r: Result<String, AppError>)
    ensures
        ({
            let t = text::trim(input@);
            match r {
                Ok(s) => t.len() > 0 && t.len() <= max_len && s@ == t,
                Err(AppError::ValidationError(m)) => if t.len() == 0 {
                    m@ == "name cannot be empty"@
                } else {
                    t.len() > max_len && m@ == articles::limit_message("name"@, max_len as nat)
                },
                Err(_) => false,
            }
        }),
{
    let t = text::trim_str(input);
    if t.as_str().is_empty() {
        return Err(AppError::ValidationError(text::owned("name cannot be empty")));
    }
    if text::char_count(t.as_str()) > max_len {
        return Err(AppError::ValidationError(articles::limit_message_string("name", max_len)));
    }
    Ok(t)
}

/// How the album list is filtered by category.
#[derive(Debug)]
pub enum AlbumCategoryStep {
    /// No category filter.
    Any,
    /// Albums without a category.
    Uncategorized,
    /// Albums of the category with this (trimmed) slug, once it is found.
    LookUp(String),
}

/// The filter of a `category` query value: absent is no filter, the slug
/// `uncategorized` selects albums without a category, any other slug is
/// looked up.
pub fn album_category_filter(category: Option<&str>) -> (r: AlbumCategoryStep)
    ensures
        match category {
            None => r is Any,
            Some(c) => if text::trim(c@) == "uncategorized"@ {
                r is Uncategorized
            } else {
                r matches AlbumCategoryStep::LookUp(s) && s@ == text::trim(c@)
            },
        },
{
    match category {
        None => AlbumCategoryStep::Any,
        Some(c) => {
            let slug = text::trim_str(c);
            if text::str_eq(slug.as_str(), "uncategorized") {
                AlbumCategoryStep::Uncategorized
            } else {
                AlbumCategoryStep::LookUp(slug)
            }
        },
    }
}

/// An album's description: its body, or none when the body is empty.
pub fn album_description(body: String) -> (r: Option<String>)
    ensures
        r == (if body@.len() == 0 {
            None
        } else {
            Some(body)
        }),
{
    if body.as_str().is_empty() {
        None
    } else {
        Some(body)
    }
}

/// The URL that serves an album item.
pub fn album_media_url(id: u128) -> (r: String)
    ensures
        r@ == "/album-media/"@ + paging::uuid_text(id),
{
    let mut u = text::owned("/album-media/");
    let t = paging::render_uuid(id);
    u.append(t.as_str());
    u
}

/// Whether an item is not the cover.
pub open spec fn not_cover(cover: u128) -> spec_fn(u128) -> bool {
    |x: u128| x != cover
}

/// The items other than `cover`, in order.
pub open spec fn others(ids: Seq<u128>, cover: u128) -> Seq<u128> {
    ids.filter(not_cover(cover))
}

/// The new order when `cover` becomes the album's cover: the cover at
/// ordinal 0, then every other item in its present order at ordinals
/// 1, 2, ...
pub open spec fn spec_cover_first(ids: Seq<u128>, cover: u128) -> Seq<(u128, i32)> {
    seq![(cover, 0i32)] + Seq::new(
        others(ids, cover).len(),
        |i: int| (others(ids, cover)[i], (i + 1) as i32),
    )
}

/// Reorder an album so that `cover` comes first; `ids` are the album's
/// items in their present order.
pub fn cover_first_ordinals(ids: &Vec<u128>, cover: u128) -> (r: Vec<(u128, i32)>)
    requires
        ids@.len() < i32::MAX,
    ensures
        r@ == spec_cover_first(ids@, cover),
{
    let mut out: Vec<(u128, i32)> = Vec::new();
    out.push((cover, 0));
    let mut n: i32 = 0;
    let mut i: usize = 0;
    while i < ids.len()
        invariant
            i <= ids@.len(),
            ids@.len() < i32::MAX,
            n as int == others(ids@.take(i as int), cover).len(),
            n <= i,
            out@ == spec_cover_first(ids@.take(i as int), cover),
        decreases ids@.len() - i,
    {
        let ghost pre = ids@.take(i as int);
        proof {
            assert(ids@.take(i + 1) =~= pre.push(ids@[i as int]));
            pre.lemma_filter_push(ids@[i as int], not_cover(cover));
        }
        if ids[i] != cover {
            n = n + 1;
            out.push((ids[i], n));
            proof {
                assert(out@ =~= spec_cover_first(ids@.take(i + 1), cover));
            }
        } else {
            proof {
                assert(out@ =~= spec_cover_first(ids@.take(i + 1), cover));
            }
        }
        i = i + 1;
    }
    proof {
        assert(ids@.take(i as int) =~= ids@);
    }
    out
}

/// After a cover promotion the cover comes first and the ordinals run
/// 0, 1, 2, ... without gaps.
pub proof fn cover_first_numbers_consecutively(ids: Seq<u128>, cover: u128)
    requires
        ids.len() < i32::MAX,
    ensures
        spec_cover_first(ids, cover)[0] == (cover, 0i32),
        forall|i: int|
            0 <= i < spec_cover_first(ids, cover).len() ==> #[trigger] spec_cover_first(ids, cover)[i].1
                == i,
        forall|i: int|
            1 <= i < spec_cover_first(ids, cover).len() ==> #[trigger] spec_cover_first(ids, cover)[i].0
                != cover,
{
    ids.lemma_filter_len(not_cover(cover));
    assert forall|i: int| 1 <= i < spec_cover_first(ids, cover).len() implies #[trigger] spec_cover_first(
        ids,
        cover,
    )[i].0 != cover by {
        ids.lemma_filter_pred(not_cover(cover), i - 1);
    }
}

} // verus!

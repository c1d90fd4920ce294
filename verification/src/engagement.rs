//! Engagement summaries of posts, album media and comments: per-kind
//! reaction counts, the caller's own reactions, live comment counts and the
//! newest comments, gathered from the grouped rows that the storage layer
//! returns for a batch of ids.
use vstd::prelude::*;
use crate::articles;
use crate::entities::ROLE_ADMINISTRATOR;
use crate::errors::AppError;
use crate::text;

verus! {

// ---------------------------------------------------------------------------
// Request and response bodies
// ---------------------------------------------------------------------------

pub struct CreateCommentRequest {
    pub body: String,
}

pub struct EditCommentRequest {
    pub body: String,
}

pub struct CreateReactionRequest {
    pub kind: String,
}

/// Reactions on a post: count per kind, and the caller's own kinds.
pub struct ReactionStateResponse {
    pub reaction_counts: Vec<(String, i64)>,
    pub viewer_reaction_kinds: Vec<String>,
}

pub struct CreateCommentReactionRequest {
    pub kind: String,
}

pub struct CommentReactionStateResponse {
    pub reaction_counts: Vec<(String, i64)>,
    pub viewer_reaction_kinds: Vec<String>,
}

pub struct CreateMediaReactionRequest {
    pub kind: String,
}

pub struct MediaReactionStateResponse {
    pub reaction_counts: Vec<(String, i64)>,
    pub viewer_reaction_kinds: Vec<String>,
}

pub struct MediaEngagementResponse {
    pub reaction_counts: Vec<(String, i64)>,
    pub viewer_reaction_kinds: Vec<String>,
    pub comment_count: i64,
}

pub struct CreateMediaCommentRequest {
    pub body: String,
}

pub struct EditMediaCommentRequest {
    pub body: String,
}

// ---------------------------------------------------------------------------
// Count tables: a kind occurs at most once
// ---------------------------------------------------------------------------

/// The map view of an association list: a later pair for a key overrides
/// an earlier one.
pub open spec fn assoc_map<K, V>(s: Seq<(K, V)>) -> Map<K, V>
    decreases s.len(),
{
    if s.len() == 0 {
        Map::empty()
    } else {
        assoc_map(s.drop_last()).insert(s.last().0, s.last().1)
    }
}

pub open spec fn distinct_keys<K, V>(s: Seq<(K, V)>) -> bool {
    forall|i: int, j: int| 0 <= i < j < s.len() ==> #[trigger] s[i].0 != #[trigger] s[j].0
}

/// The kinds of a count table, as character sequences, with their counts.
pub open spec fn count_pairs(v: Seq<(String, i64)>) -> Seq<(Seq<char>, i64)> {
    v.map_values(|p: (String, i64)| (p.0@, p.1))
}

/// A count table: each kind at most once.
pub open spec fn wf_counts(v: Seq<(String, i64)>) -> bool {
    distinct_keys(count_pairs(v))
}

/// The counts of a table, by kind.
pub open spec fn counts_map(v: Seq<(String, i64)>) -> Map<Seq<char>, i64> {
    assoc_map(count_pairs(v))
}

proof fn lemma_assoc_update<K, V>(s: Seq<(K, V)>, j: int, v: V)
    requires
        distinct_keys(s),
        0 <= j < s.len(),
    ensures
        assoc_map(s.update(j, (s[j].0, v))) == assoc_map(s).insert(s[j].0, v),
    decreases s.len(),
{
    let t = s.update(j, (s[j].0, v));
    if j == s.len() - 1 {
        assert(t.drop_last() =~= s.drop_last());
        assert(assoc_map(s).insert(s[j].0, v) =~= assoc_map(s.drop_last()).insert(s[j].0, v));
    } else {
        assert(t.drop_last() =~= s.drop_last().update(j, (s[j].0, v)));
        assert(distinct_keys(s.drop_last()));
        lemma_assoc_update(s.drop_last(), j, v);
        assert(s.last().0 != s[j].0);
        assert(assoc_map(t) =~= assoc_map(s).insert(s[j].0, v));
    }
}

fn find_kind(counts: &Vec<(String, i64)>, kind: &str) -> (r: Option<usize>)
    ensures
        match r {
            Some(j) => j < counts@.len() && counts@[j as int].0@ == kind@,
            None => forall|i: int| 0 <= i < counts@.len() ==> #[trigger] counts@[i].0@ != kind@,
        },
{
    let mut i: usize = 0;
    while i < counts.len()
        invariant
            i <= counts@.len(),
            forall|k: int| 0 <= k < i ==> #[trigger] counts@[k].0@ != kind@,
        decreases counts@.len() - i,
    {
        if text::str_eq(counts[i].0.as_str(), kind) {
            return Some(i);
        }
        i = i + 1;
    }
    None
}

/// Set the count of `kind`, replacing the earlier count of that kind.
fn set_count(counts: &mut Vec<(String, i64)>, kind: String, count: i64)
    requires
        wf_counts(old(counts)@),
    ensures
        wf_counts(final(counts)@),
        counts_map(final(counts)@) == counts_map(old(counts)@).insert(kind@, count),
{
    let ghost before = counts@;
    match find_kind(counts, kind.as_str()) {
        Some(j) => {
            counts.set(j, (kind, count));
            proof {
                let p = count_pairs(before);
                assert(count_pairs(counts@) =~= p.update(j as int, (p[j as int].0, count)));
                lemma_assoc_update(p, j as int, count);
                assert forall|a: int, b: int|
                    0 <= a < b < count_pairs(counts@).len() implies #[trigger] count_pairs(
                    counts@,
                )[a].0 != #[trigger] count_pairs(counts@)[b].0 by {
                    assert(p[a].0 != p[b].0);
                }
            }
        },
        None => {
            counts.push((kind, count));
            proof {
                let p = count_pairs(before);
                assert(count_pairs(counts@) =~= p.push((kind@, count)));
                assert(count_pairs(counts@).drop_last() =~= p);
                assert forall|a: int, b: int|
                    0 <= a < b < count_pairs(counts@).len() implies #[trigger] count_pairs(
                    counts@,
                )[a].0 != #[trigger] count_pairs(counts@)[b].0 by {
                    if b == p.len() {
                        assert(before[a].0@ != kind@);
                    } else {
                        assert(p[a].0 != p[b].0);
                    }
                }
            }
        },
    }
}

// ---------------------------------------------------------------------------
// Rows per id
// ---------------------------------------------------------------------------

/// The payloads of the rows for `id`, in row order.
pub open spec fn rows_for<T>(rows: Seq<(u128, T)>, id: u128) -> Seq<T>
    decreases rows.len(),
{
    if rows.len() == 0 {
        Seq::empty()
    } else if rows.last().0 == id {
        rows_for(rows.drop_last(), id).push(rows.last().1)
    } else {
        rows_for(rows.drop_last(), id)
    }
}

/// The count of the last row for `id`; zero when there is none.
pub open spec fn last_count_for(rows: Seq<(u128, i64)>, id: u128) -> i64
    decreases rows.len(),
{
    if rows.len() == 0 {
        0
    } else if rows.last().0 == id {
        rows.last().1
    } else {
        last_count_for(rows.drop_last(), id)
    }
}

pub open spec fn occurs<T>(rows: Seq<(u128, T)>, id: u128) -> bool {
    exists|i: int| 0 <= i < rows.len() && #[trigger] rows[i].0 == id
}

proof fn lemma_rows_for_absent<T>(rows: Seq<(u128, T)>, id: u128)
    requires
        !occurs(rows, id),
    ensures
        rows_for(rows, id) == Seq::<T>::empty(),
    decreases rows.len(),
{
    if rows.len() > 0 {
        assert(rows.last().0 == rows[rows.len() - 1].0);
        assert(!occurs(rows.drop_last(), id)) by {
            if occurs(rows.drop_last(), id) {
                let i = choose|i: int| 0 <= i < rows.drop_last().len() && #[trigger] rows.drop_last()[i].0 == id;
                assert(rows[i].0 == id);
            }
        }
        lemma_rows_for_absent(rows.drop_last(), id);
    }
}

proof fn lemma_last_count_absent(rows: Seq<(u128, i64)>, id: u128)
    requires
        !occurs(rows, id),
    ensures
        last_count_for(rows, id) == 0,
    decreases rows.len(),
{
    if rows.len() > 0 {
        assert(rows.last().0 == rows[rows.len() - 1].0);
        assert(!occurs(rows.drop_last(), id)) by {
            if occurs(rows.drop_last(), id) {
                let i = choose|i: int| 0 <= i < rows.drop_last().len() && #[trigger] rows.drop_last()[i].0 == id;
                assert(rows[i].0 == id);
            }
        }
        lemma_last_count_absent(rows.drop_last(), id);
    }
}

/// Count rows `(id, kind, count)` as id-keyed pairs.
pub open spec fn count_rows(rows: Seq<(u128, String, i64)>) -> Seq<(u128, (Seq<char>, i64))> {
    rows.map_values(|r: (u128, String, i64)| (r.0, (r.1@, r.2)))
}

/// Viewer rows `(id, kind)` with the kinds as character sequences.
pub open spec fn kind_rows(rows: Seq<(u128, String)>) -> Seq<(u128, Seq<char>)> {
    rows.map_values(|r: (u128, String)| (r.0, r.1@))
}

/// Per-kind reaction counts of `id`.
pub open spec fn spec_counts_for(rows: Seq<(u128, String, i64)>, id: u128) -> Map<Seq<char>, i64> {
    assoc_map(rows_for(count_rows(rows), id))
}

/// The caller's own reaction kinds on `id`, in row order.
pub open spec fn spec_kinds_for(rows: Seq<(u128, String)>, id: u128) -> Seq<Seq<char>> {
    rows_for(kind_rows(rows), id)
}

// ---------------------------------------------------------------------------
// Summaries
// ---------------------------------------------------------------------------

/// Engagement summary of one media item.
pub struct MediaEngagement {
    pub reaction_counts: Vec<(String, i64)>,
    pub viewer_reaction_kinds: Vec<String>,
    pub comment_count: i64,
}

/// Engagement summary of one comment: reactions only.
pub struct CommentEngagement {
    pub reaction_counts: Vec<(String, i64)>,
    pub viewer_reaction_kinds: Vec<String>,
}

/// Engagement summary of one post, with its newest live comments.
pub struct PostEngagement<C> {
    pub reaction_counts: Vec<(String, i64)>,
    pub viewer_reaction_kinds: Vec<String>,
    pub comment_count: i64,
    pub top_comments: Vec<C>,
}

pub open spec fn distinct_ids<T>(out: Seq<(u128, T)>) -> bool {
    forall|i: int, j: int| 0 <= i < j < out.len() ==> #[trigger] out[i].0 != #[trigger] out[j].0
}

/// The summary of `id` given the count rows, the caller's rows and the
/// comment-count rows seen so far.
pub open spec fn media_entry_ok(
    e: MediaEngagement,
    id: u128,
    counts: Seq<(u128, String, i64)>,
    mine: Seq<(u128, String)>,
    comments: Seq<(u128, i64)>,
) -> bool {
    &&& wf_counts(e.reaction_counts@)
    &&& counts_map(e.reaction_counts@) == spec_counts_for(counts, id)
    &&& text::views(e.viewer_reaction_kinds@) == spec_kinds_for(mine, id)
    &&& e.comment_count == last_count_for(comments, id)
}

/// Summaries keyed by distinct ids: exactly the ids that occur in some
/// row, each with the summary of its rows.
pub open spec fn media_table_ok(
    out: Seq<(u128, MediaEngagement)>,
    counts: Seq<(u128, String, i64)>,
    mine: Seq<(u128, String)>,
    comments: Seq<(u128, i64)>,
) -> bool {
    &&& distinct_ids(out)
    &&& forall|i: int|
        0 <= i < out.len() ==> media_entry_ok(#[trigger] out[i].1, out[i].0, counts, mine, comments)
    &&& forall|id: u128|
        #![trigger has_id(out, id)]
        #![trigger occurs_any(counts, mine, comments, id)]
        has_id(out, id) == occurs_any(counts, mine, comments, id)
}

/// Whether a summary table holds an entry for `id`.
pub open spec fn has_id<T>(out: Seq<(u128, T)>, id: u128) -> bool {
    exists|i: int| 0 <= i < out.len() && #[trigger] out[i].0 == id
}

/// Whether `id` occurs in any of the rows.
pub open spec fn occurs_any(
    counts: Seq<(u128, String, i64)>,
    mine: Seq<(u128, String)>,
    comments: Seq<(u128, i64)>,
    id: u128,
) -> bool {
    occurs(count_rows(counts), id) || occurs(kind_rows(mine), id) || occurs(comments, id)
}

proof fn lemma_has_id_push<T>(s: Seq<(u128, T)>, e: (u128, T), x: u128)
    ensures
        has_id(s.push(e), x) == (has_id(s, x) || e.0 == x),
{
    if has_id(s.push(e), x) {
        let i = choose|i: int| 0 <= i < s.push(e).len() && #[trigger] s.push(e)[i].0 == x;
        if i < s.len() {
            assert(s[i].0 == x);
        }
    }
    if has_id(s, x) {
        let i = choose|i: int| 0 <= i < s.len() && #[trigger] s[i].0 == x;
        assert(s.push(e)[i].0 == x);
    }
    if e.0 == x {
        assert(s.push(e)[s.len() as int].0 == x);
    }
}

proof fn lemma_has_id_same_ids<T, U>(s: Seq<(u128, T)>, t: Seq<(u128, U)>, x: u128)
    requires
        s.len() == t.len(),
        forall|i: int| 0 <= i < s.len() ==> #[trigger] s[i].0 == t[i].0,
    ensures
        has_id(s, x) == has_id(t, x),
{
    if has_id(s, x) {
        let i = choose|i: int| 0 <= i < s.len() && #[trigger] s[i].0 == x;
        assert(t[i].0 == x);
    }
    if has_id(t, x) {
        let i = choose|i: int| 0 <= i < t.len() && #[trigger] t[i].0 == x;
        assert(s[i].0 == x);
    }
}

fn find_id<T>(out: &Vec<(u128, T)>, id: u128) -> (r: Option<usize>)
    ensures
        match r {
            Some(j) => j < out@.len() && out@[j as int].0 == id,
            None => forall|i: int| 0 <= i < out@.len() ==> #[trigger] out@[i].0 != id,
        },
{
    let mut i: usize = 0;
    while i < out.len()
        invariant
            i <= out@.len(),
            forall|k: int| 0 <= k < i ==> #[trigger] out@[k].0 != id,
        decreases out@.len() - i,
    {
        if out[i].0 == id {
            return Some(i);
        }
        i = i + 1;
    }
    None
}

fn empty_media() -> (e: MediaEngagement)
    ensures
        e.reaction_counts@.len() == 0,
        e.viewer_reaction_kinds@.len() == 0,
        e.comment_count == 0,
{
    MediaEngagement { reaction_counts: Vec::new(), viewer_reaction_kinds: Vec::new(), comment_count: 0 }
}

/// The index of the summary of `id`, adding an empty one when there is
/// none yet.
fn entry_for(
    out: &mut Vec<(u128, MediaEngagement)>,
    id: u128,
    Ghost(counts): Ghost<Seq<(u128, String, i64)>>,
    Ghost(mine): Ghost<Seq<(u128, String)>>,
    Ghost(comments): Ghost<Seq<(u128, i64)>>,
) -> (j: usize)
    requires
        media_table_ok(old(out)@, counts, mine, comments),
    ensures
        j < final(out)@.len(),
        final(out)@[j as int].0 == id,
        distinct_ids(final(out)@),
        forall|i: int|
            0 <= i < final(out)@.len() ==> media_entry_ok(
                #[trigger] final(out)@[i].1,
                final(out)@[i].0,
                counts,
                mine,
                comments,
            ),
        forall|x: u128|
            #[trigger] has_id(final(out)@, x) == (x == id || occurs_any(counts, mine, comments, x)),
{
    match find_id(out, id) {
        Some(j) => j,
        None => {
            let ghost before = out@;
            proof {
                assert(!has_id(before, id)) by {
                    if has_id(before, id) {
                        let i = choose|i: int| 0 <= i < before.len() && #[trigger] before[i].0 == id;
                        assert(before[i].0 != id);
                    }
                }
                assert(!occurs_any(counts, mine, comments, id));
                lemma_rows_for_absent(count_rows(counts), id);
                lemma_rows_for_absent(kind_rows(mine), id);
                lemma_last_count_absent(comments, id);
            }
            let e = empty_media();
            proof {
                assert(count_pairs(e.reaction_counts@) =~= Seq::<(Seq<char>, i64)>::empty());
                assert(text::views(e.viewer_reaction_kinds@) =~= Seq::<Seq<char>>::empty());
                assert(counts_map(e.reaction_counts@) =~= Map::<Seq<char>, i64>::empty());
            }
            out.push((id, e));
            proof {
                assert forall|x: u128|
                    #[trigger] has_id(out@, x) == (x == id || occurs_any(counts, mine, comments, x)) by {
                    lemma_has_id_push(before, (id, e), x);
                    assert(out@ == before.push((id, e)));
                }
                assert forall|a: int, b: int| 0 <= a < b < out@.len() implies #[trigger] out@[a].0
                    != #[trigger] out@[b].0 by {
                    if b == before.len() {
                        assert(before[a].0 != id);
                    }
                }
            }
            out.len() - 1
        },
    }
}

proof fn lemma_rows_for_push<T>(rows: Seq<(u128, T)>, r: (u128, T), id: u128)
    ensures
        rows_for(rows.push(r), id) == (if r.0 == id {
            rows_for(rows, id).push(r.1)
        } else {
            rows_for(rows, id)
        }),
{
    assert(rows.push(r).drop_last() =~= rows);
}

proof fn lemma_last_count_push(rows: Seq<(u128, i64)>, r: (u128, i64), id: u128)
    ensures
        last_count_for(rows.push(r), id) == (if r.0 == id {
            r.1
        } else {
            last_count_for(rows, id)
        }),
{
    assert(rows.push(r).drop_last() =~= rows);
}

proof fn lemma_occurs_push<T>(rows: Seq<(u128, T)>, r: (u128, T), id: u128)
    ensures
        occurs(rows.push(r), id) == (occurs(rows, id) || r.0 == id),
{
    if occurs(rows.push(r), id) {
        let i = choose|i: int| 0 <= i < rows.push(r).len() && #[trigger] rows.push(r)[i].0 == id;
        if i < rows.len() {
            assert(rows[i].0 == id);
        }
    }
    if occurs(rows, id) {
        let i = choose|i: int| 0 <= i < rows.len() && #[trigger] rows[i].0 == id;
        assert(rows.push(r)[i].0 == id);
    }
    if r.0 == id {
        assert(rows.push(r)[rows.len() as int].0 == id);
    }
}

/// Gather media summaries from the grouped rows: `counts` holds
/// `(media id, kind, count)` per kind, `mine` the caller's `(media id,
/// kind)` reactions (empty for anonymous callers), and `comments` the live
/// comment count per media id. Exactly the ids that occur in a row get a
/// summary; each summary holds the counts, the caller's kinds in row order
/// and the comment count (zero when absent) of its id.
pub fn media_engagement_from_rows(
    counts: &Vec<(u128, String, i64)>,
    mine: &Vec<(u128, String)>,
    comments: &Vec<(u128, i64)>,
) -> (r: Vec<(u128, MediaEngagement)>)
    ensures
        media_table_ok(r@, counts@, mine@, comments@),
{
    let mut out: Vec<(u128, MediaEngagement)> = Vec::new();
    let ghost no_counts = Seq::<(u128, String, i64)>::empty();
    let ghost no_mine = Seq::<(u128, String)>::empty();
    let ghost no_comments = Seq::<(u128, i64)>::empty();
    proof {
        assert(count_rows(no_counts) =~= Seq::<(u128, (Seq<char>, i64))>::empty());
        assert(kind_rows(no_mine) =~= Seq::<(u128, Seq<char>)>::empty());
    }
    let mut i: usize = 0;
    while i < counts.len()
        invariant
            i <= counts@.len(),
            media_table_ok(out@, counts@.take(i as int), no_mine, no_comments),
        decreases counts@.len() - i,
    {
        let ghost prefix = counts@.take(i as int);
        let id = counts[i].0;
        let j = entry_for(&mut out, id, Ghost(prefix), Ghost(no_mine), Ghost(no_comments));
        let kind = counts[i].1.clone();
        let c = counts[i].2;
        let ghost mid = out@;
        set_count(&mut out[j].1.reaction_counts, kind, c);
        proof {
            let next = counts@.take(i + 1);
            assert(next =~= prefix.push(counts@[i as int]));
            assert(count_rows(next) =~= count_rows(prefix).push((id, (kind@, c))));
            assert forall|x: u128| #[trigger] spec_counts_for(next, x) == (if x == id {
                spec_counts_for(prefix, x).insert(kind@, c)
            } else {
                spec_counts_for(prefix, x)
            }) by {
                lemma_rows_for_push(count_rows(prefix), (id, (kind@, c)), x);
                assert(rows_for(count_rows(prefix), x).push((kind@, c)).drop_last() =~= rows_for(
                    count_rows(prefix),
                    x,
                ));
            }
            assert forall|x: u128| #[trigger] occurs(count_rows(next), x) == (occurs(
                count_rows(prefix),
                x,
            ) || x == id) by {
                lemma_occurs_push(count_rows(prefix), (id, (kind@, c)), x);
            }
            assert forall|k: int| 0 <= k < out@.len() implies media_entry_ok(
                #[trigger] out@[k].1,
                out@[k].0,
                next,
                no_mine,
                no_comments,
            ) by {
                if k != j {
                    assert(out@[k] == mid[k]);
                }
            }
            assert forall|x: u128| #[trigger] has_id(out@, x) == occurs_any(next, no_mine, no_comments, x) by {
                lemma_has_id_same_ids(out@, mid, x);
                lemma_occurs_push(count_rows(prefix), (id, (kind@, c)), x);
            }
        }
        i = i + 1;
    }
    proof {
        assert(counts@.take(counts@.len() as int) =~= counts@);
        assert(mine@.take(0) =~= no_mine);
    }
    let mut i: usize = 0;
    while i < mine.len()
        invariant
            i <= mine@.len(),
            media_table_ok(out@, counts@, mine@.take(i as int), no_comments),
        decreases mine@.len() - i,
    {
        let ghost prefix = mine@.take(i as int);
        let id = mine[i].0;
        let j = entry_for(&mut out, id, Ghost(counts@), Ghost(prefix), Ghost(no_comments));
        let kind = mine[i].1.clone();
        let ghost mid = out@;
        out[j].1.viewer_reaction_kinds.push(kind);
        proof {
            let next = mine@.take(i + 1);
            assert(next =~= prefix.push(mine@[i as int]));
            assert(kind_rows(next) =~= kind_rows(prefix).push((id, kind@)));
            assert(text::views(out@[j as int].1.viewer_reaction_kinds@) =~= text::views(
                mid[j as int].1.viewer_reaction_kinds@,
            ).push(kind@));
            assert forall|x: u128| #[trigger] spec_kinds_for(next, x) == (if x == id {
                spec_kinds_for(prefix, x).push(kind@)
            } else {
                spec_kinds_for(prefix, x)
            }) by {
                lemma_rows_for_push(kind_rows(prefix), (id, kind@), x);
            }
            assert forall|k: int| 0 <= k < out@.len() implies media_entry_ok(
                #[trigger] out@[k].1,
                out@[k].0,
                counts@,
                next,
                no_comments,
            ) by {
                if k != j {
                    assert(out@[k] == mid[k]);
                }
            }
            assert forall|x: u128| #[trigger] has_id(out@, x) == occurs_any(counts@, next, no_comments, x) by {
                lemma_has_id_same_ids(out@, mid, x);
                lemma_occurs_push(kind_rows(prefix), (id, kind@), x);
            }
        }
        i = i + 1;
    }
    proof {
        assert(mine@.take(mine@.len() as int) =~= mine@);
        assert(comments@.take(0) =~= no_comments);
    }
    let mut i: usize = 0;
    while i < comments.len()
        invariant
            i <= comments@.len(),
            media_table_ok(out@, counts@, mine@, comments@.take(i as int)),
        decreases comments@.len() - i,
    {
        let ghost prefix = comments@.take(i as int);
        let id = comments[i].0;
        let j = entry_for(&mut out, id, Ghost(counts@), Ghost(mine@), Ghost(prefix));
        let c = comments[i].1;
        let ghost mid = out@;
        out[j].1.comment_count = c;
        proof {
            let next = comments@.take(i + 1);
            assert(next =~= prefix.push(comments@[i as int]));
            assert forall|x: u128| #[trigger] last_count_for(next, x) == (if x == id {
                c
            } else {
                last_count_for(prefix, x)
            }) by {
                lemma_last_count_push(prefix, (id, c), x);
            }
            assert forall|k: int| 0 <= k < out@.len() implies media_entry_ok(
                #[trigger] out@[k].1,
                out@[k].0,
                counts@,
                mine@,
                next,
            ) by {
                if k != j {
                    assert(out@[k] == mid[k]);
                }
            }
            assert forall|x: u128| #[trigger] has_id(out@, x) == occurs_any(counts@, mine@, next, x) by {
                lemma_has_id_same_ids(out@, mid, x);
                lemma_occurs_push(prefix, (id, c), x);
            }
        }
        i = i + 1;
    }
    proof {
        assert(comments@.take(comments@.len() as int) =~= comments@);
    }
    out
}

/// The summary of a comment given its reaction rows.
pub open spec fn comment_entry_ok(
    e: CommentEngagement,
    id: u128,
    counts: Seq<(u128, String, i64)>,
    mine: Seq<(u128, String)>,
) -> bool {
    &&& wf_counts(e.reaction_counts@)
    &&& counts_map(e.reaction_counts@) == spec_counts_for(counts, id)
    &&& text::views(e.viewer_reaction_kinds@) == spec_kinds_for(mine, id)
}

/// Comment summaries keyed by distinct ids: exactly the comments that occur
/// in a reaction row.
pub open spec fn comment_table_ok(
    out: Seq<(u128, CommentEngagement)>,
    counts: Seq<(u128, String, i64)>,
    mine: Seq<(u128, String)>,
) -> bool {
    &&& distinct_ids(out)
    &&& forall|i: int|
        0 <= i < out.len() ==> comment_entry_ok(#[trigger] out[i].1, out[i].0, counts, mine)
    &&& forall|id: u128|
        #![trigger has_id(out, id)]
        has_id(out, id) == (occurs(count_rows(counts), id) || occurs(kind_rows(mine), id))
}

proof fn lemma_no_comment_rows(x: u128)
    ensures
        !occurs(Seq::<(u128, i64)>::empty(), x),
        last_count_for(Seq::<(u128, i64)>::empty(), x) == 0,
{
}

/// Gather comment summaries from the grouped reaction rows: `counts` holds
/// `(comment id, kind, count)` per kind and `mine` the caller's `(comment
/// id, kind)` reactions. Exactly the comments that occur in a row get a
/// summary.
pub fn comment_engagement_from_rows(
    counts: &Vec<(u128, String, i64)>,
    mine: &Vec<(u128, String)>,
) -> (r: Vec<(u128, CommentEngagement)>)
    ensures
        comment_table_ok(r@, counts@, mine@),
{
    let none: Vec<(u128, i64)> = Vec::new();
    let mut media = media_engagement_from_rows(counts, mine, &none);
    let ghost all = media@;
    let total = media.len();
    let mut out: Vec<(u128, CommentEngagement)> = Vec::new();
    let mut i: usize = 0;
    proof {
        assert(media@.skip(0) =~= all);
    }
    while media.len() > 0
        invariant
            i + media@.len() == all.len(),
            all.len() == total,
            media@ == all.skip(i as int),
            out@.len() == i,
            media_table_ok(all, counts@, mine@, none@),
            forall|k: int|
                0 <= k < i ==> (#[trigger] out@[k]).0 == all[k].0 && comment_entry_ok(
                    out@[k].1,
                    out@[k].0,
                    counts@,
                    mine@,
                ),
        decreases media@.len(),
    {
        let (id, e) = media.remove(0);
        proof {
            assert(all[i as int] == (id, e));
            assert(media_entry_ok(all[i as int].1, all[i as int].0, counts@, mine@, none@));
            assert(media@ =~= all.skip(i + 1));
        }
        out.push((id, CommentEngagement { reaction_counts: e.reaction_counts, viewer_reaction_kinds: e.viewer_reaction_kinds }));
        i = i + 1;
    }
    proof {
        assert forall|a: int, b: int| 0 <= a < b < out@.len() implies #[trigger] out@[a].0
            != #[trigger] out@[b].0 by {
            assert(all[a].0 != all[b].0);
        }
        assert forall|x: u128| #[trigger] has_id(out@, x) == (occurs(count_rows(counts@), x)
            || occurs(kind_rows(mine@), x)) by {
            lemma_has_id_same_ids(out@, all, x);
            assert(has_id(all, x) == occurs_any(counts@, mine@, none@, x));
            lemma_no_comment_rows(x);
            assert(none@ =~= Seq::<(u128, i64)>::empty());
        }
    }
    out
}

/// The summary of a post given all its rows: reactions, the caller's
/// kinds, the comment count and its newest comments in row order.
pub open spec fn post_entry_ok<C>(
    e: PostEngagement<C>,
    id: u128,
    counts: Seq<(u128, String, i64)>,
    mine: Seq<(u128, String)>,
    comments: Seq<(u128, i64)>,
    top: Seq<(u128, C)>,
) -> bool {
    &&& wf_counts(e.reaction_counts@)
    &&& counts_map(e.reaction_counts@) == spec_counts_for(counts, id)
    &&& text::views(e.viewer_reaction_kinds@) == spec_kinds_for(mine, id)
    &&& e.comment_count == last_count_for(comments, id)
    &&& e.top_comments@ == rows_for(top, id)
}

/// Post summaries keyed by distinct ids: exactly the posts that occur in
/// some row.
pub open spec fn post_table_ok<C>(
    out: Seq<(u128, PostEngagement<C>)>,
    counts: Seq<(u128, String, i64)>,
    mine: Seq<(u128, String)>,
    comments: Seq<(u128, i64)>,
    top: Seq<(u128, C)>,
) -> bool {
    &&& distinct_ids(out)
    &&& forall|i: int|
        0 <= i < out.len() ==> post_entry_ok(
            #[trigger] out[i].1,
            out[i].0,
            counts,
            mine,
            comments,
            top,
        )
    &&& forall|id: u128|
        #![trigger has_id(out, id)]
        has_id(out, id) == (occurs_any(counts, mine, comments, id) || occurs(top, id))
}

/// Gather post summaries from the grouped rows; `top` holds `(post id,
/// comment)` for the newest live comments of each post, newest first.
/// Exactly the posts that occur in a row get a summary.
pub fn post_engagement_from_rows<C>(
    counts: &Vec<(u128, String, i64)>,
    mine: &Vec<(u128, String)>,
    comments: &Vec<(u128, i64)>,
    top: Vec<(u128, C)>,
) -> (r: Vec<(u128, PostEngagement<C>)>)
    ensures
        post_table_ok(r@, counts@, mine@, comments@, top@),
{
    let mut media = media_engagement_from_rows(counts, mine, comments);
    let ghost all = media@;
    let total = media.len();
    let ghost no_top = Seq::<(u128, C)>::empty();
    let mut out: Vec<(u128, PostEngagement<C>)> = Vec::new();
    let mut i: usize = 0;
    proof {
        assert(media@.skip(0) =~= all);
    }
    while media.len() > 0
        invariant
            i + media@.len() == all.len(),
            all.len() == total,
            media@ == all.skip(i as int),
            out@.len() == i,
            media_table_ok(all, counts@, mine@, comments@),
            no_top == Seq::<(u128, C)>::empty(),
            forall|k: int|
                0 <= k < i ==> (#[trigger] out@[k]).0 == all[k].0 && post_entry_ok(
                    out@[k].1,
                    out@[k].0,
                    counts@,
                    mine@,
                    comments@,
                    no_top,
                ),
        decreases media@.len(),
    {
        let (id, e) = media.remove(0);
        proof {
            assert(all[i as int] == (id, e));
            assert(media_entry_ok(all[i as int].1, all[i as int].0, counts@, mine@, comments@));
            assert(media@ =~= all.skip(i + 1));
        }
        let p = PostEngagement {
            reaction_counts: e.reaction_counts,
            viewer_reaction_kinds: e.viewer_reaction_kinds,
            comment_count: e.comment_count,
            top_comments: Vec::new(),
        };
        proof {
            assert(no_top.len() == 0);
            assert(p.top_comments@ =~= rows_for(no_top, id));
        }
        out.push((id, p));
        i = i + 1;
    }
    proof {
        assert forall|a: int, b: int| 0 <= a < b < out@.len() implies #[trigger] out@[a].0
            != #[trigger] out@[b].0 by {
            assert(all[a].0 != all[b].0);
        }
        assert forall|x: u128| #[trigger] has_id(out@, x) == (occurs_any(counts@, mine@, comments@, x)
            || occurs(no_top, x)) by {
            lemma_has_id_same_ids(out@, all, x);
        }
    }
    let ghost top0 = top@;
    let mut top = top;
    let top_total = top.len();
    let mut i: usize = 0;
    proof {
        assert(top@.skip(0) =~= top0);
        assert(top0.take(0) =~= no_top);
    }
    while top.len() > 0
        invariant
            i + top@.len() == top0.len(),
            top0.len() == top_total,
            top@ == top0.skip(i as int),
            post_table_ok(out@, counts@, mine@, comments@, top0.take(i as int)),
        decreases top@.len(),
    {
        let ghost prefix = top0.take(i as int);
        let (id, c) = top.remove(0);
        proof {
            assert(top0[i as int] == (id, c));
            assert(top@ =~= top0.skip(i + 1));
        }
        let ghost before = out@;
        let j = match find_id(&out, id) {
            Some(j) => j,
            None => {
                proof {
                    assert(!has_id(before, id)) by {
                        if has_id(before, id) {
                            let k = choose|k: int| 0 <= k < before.len() && #[trigger] before[k].0 == id;
                            assert(before[k].0 != id);
                        }
                    }
                    lemma_rows_for_absent(count_rows(counts@), id);
                    lemma_rows_for_absent(kind_rows(mine@), id);
                    lemma_last_count_absent(comments@, id);
                    lemma_rows_for_absent(prefix, id);
                }
                let e = PostEngagement {
                    reaction_counts: Vec::new(),
                    viewer_reaction_kinds: Vec::new(),
                    comment_count: 0,
                    top_comments: Vec::new(),
                };
                proof {
                    assert(count_pairs(e.reaction_counts@) =~= Seq::<(Seq<char>, i64)>::empty());
                    assert(text::views(e.viewer_reaction_kinds@) =~= Seq::<Seq<char>>::empty());
                    assert(counts_map(e.reaction_counts@) =~= Map::<Seq<char>, i64>::empty());
                    assert(e.top_comments@ =~= Seq::<C>::empty());
                }
                out.push((id, e));
                proof {
                    assert forall|a: int, b: int| 0 <= a < b < out@.len() implies #[trigger] out@[a].0
                        != #[trigger] out@[b].0 by {
                        if b == before.len() {
                            assert(before[a].0 != id);
                        }
                    }
                    assert forall|x: u128| #[trigger] has_id(out@, x) == (x == id || has_id(before, x)) by {
                        lemma_has_id_push(before, (id, e), x);
                    }
                }
                out.len() - 1
            },
        };
        let ghost mid = out@;
        out[j].1.top_comments.push(c);
        proof {
            let next = top0.take(i + 1);
            assert(next =~= prefix.push((id, c)));
            assert forall|x: u128| #[trigger] rows_for(next, x) == (if x == id {
                rows_for(prefix, x).push(c)
            } else {
                rows_for(prefix, x)
            }) by {
                lemma_rows_for_push(prefix, (id, c), x);
            }
            assert forall|k: int| 0 <= k < out@.len() implies post_entry_ok(
                #[trigger] out@[k].1,
                out@[k].0,
                counts@,
                mine@,
                comments@,
                next,
            ) by {
                if k != j {
                    assert(out@[k] == mid[k]);
                }
                if k < before.len() {
                    assert(mid[k] == before[k]);
                }
            }
            assert forall|x: u128| #[trigger] has_id(out@, x) == (occurs_any(counts@, mine@, comments@, x)
                || occurs(next, x)) by {
                lemma_has_id_same_ids(out@, mid, x);
                lemma_occurs_push(prefix, (id, c), x);
                if mid.len() > before.len() {
                    lemma_has_id_push(before, mid[before.len() as int], x);
                    assert(mid =~= before.push(mid[before.len() as int]));
                }
            }
        }
        i = i + 1;
    }
    proof {
        assert(top0.take(top0.len() as int) =~= top0);
    }
    out
}

// ---------------------------------------------------------------------------
// Comment bodies and who may change a comment
// ---------------------------------------------------------------------------

/// Longest comment, in characters.
pub const COMMENT_MAX_LEN: usize = 4000;

/// Check a comment body: trimmed, not empty, at most 4000 characters.
pub fn validate_comment_body(body: &str) -> (r: Result<String, AppError>)
    ensures
        ({
            let t = text::trim(body@);
            match r {
                Ok(s) => 0 < t.len() <= COMMENT_MAX_LEN && s@ == t,
                Err(AppError::ValidationError(m)) => if t.len() == 0 {
                    m@ == "Comment body cannot be empty"@
                } else {
                    t.len() > COMMENT_MAX_LEN && m@ == articles::limit_message(
                        "Comment"@,
                        COMMENT_MAX_LEN as nat,
                    )
                },
                Err(_) => false,
            }
        }),
{
    let t = text::trim_str(body);
    if t.as_str().is_empty() {
        return Err(AppError::ValidationError(text::owned("Comment body cannot be empty")));
    }
    if text::char_count(t.as_str()) > COMMENT_MAX_LEN {
        return Err(
            AppError::ValidationError(articles::limit_message_string("Comment", COMMENT_MAX_LEN)),
        );
    }
    Ok(t)
}

/// What a caller wants to do with a comment.
#[derive(Debug, PartialEq, Eq, Structural)]
pub enum CommentAction {
    Edit,
    Delete,
}

/// Check that the caller may act on a live comment. `found` says whether
/// the live comment exists and `parent_matches` whether it sits under the
/// post (or album item) of the route. A comment elsewhere is answered
/// exactly like a missing one, so that routes cannot probe for comments.
/// Only the author or an administrator may edit or delete.
pub fn check_comment_access(
    found: bool,
    parent_matches: bool,
    author_id: u128,
    user_id: u128,
    role: &str,
    action: CommentAction,
) -> (r: Result<(), AppError>)
    ensures
        !found || !parent_matches ==> (r matches Err(e) && e matches AppError::NotFound(m) && m@
            == "Comment not found"@),
        found && parent_matches ==> (r is Ok <==> (author_id == user_id || role@
            == ROLE_ADMINISTRATOR@)),
        r matches Err(AppError::Forbidden(m)) ==> m@ == (match action {
            CommentAction::Edit => "Only the comment author or an administrator can edit this comment"@,
            CommentAction::Delete => "Only the comment author or an administrator can delete this comment"@,
        }),
        r matches Err(e) ==> (e is NotFound || e is Forbidden),
{
    if !found || !parent_matches {
        return Err(AppError::NotFound(text::owned("Comment not found")));
    }
    if author_id != user_id && !text::str_eq(role, ROLE_ADMINISTRATOR) {
        return Err(
            AppError::Forbidden(
                match action {
                    CommentAction::Edit => text::owned(
                        "Only the comment author or an administrator can edit this comment",
                    ),
                    CommentAction::Delete => text::owned(
                        "Only the comment author or an administrator can delete this comment",
                    ),
                },
            ),
        );
    }
    Ok(())
}

/// The sum of the counts.
pub open spec fn sum_counts(counts: Seq<i64>) -> int
    decreases counts.len(),
{
    if counts.len() == 0 {
        0
    } else {
        sum_counts(counts.drop_last()) + counts.last()
    }
}

/// Adding a kind with `x` reactions raises the total by exactly `x`; a
/// single kind's total is its count, and no kinds total zero.
pub proof fn total_is_the_plain_sum(counts: Seq<i64>, x: i64)
    ensures
        sum_counts(counts.push(x)) == sum_counts(counts) + x,
        sum_counts(seq![x]) == x,
        sum_counts(Seq::<i64>::empty()) == 0,
{
    assert(counts.push(x).drop_last() =~= counts);
    assert(seq![x].drop_last() =~= Seq::<i64>::empty());
    assert(seq![x].last() == x);
    assert(sum_counts(Seq::<i64>::empty()) == 0);
    assert(sum_counts(seq![x]) == sum_counts(seq![x].drop_last()) + seq![x].last());
}

/// A post's total reaction count over all kinds, for the feed cards. Every
/// running total must fit in `i64`, as the summation does not wrap.
pub fn total_reactions(counts: &Vec<i64>) -> (r: i64)
    requires
        forall|k: int|
            0 <= k <= counts@.len() ==> i64::MIN <= #[trigger] sum_counts(counts@.take(k)) <= i64::MAX,
    ensures
        r == sum_counts(counts@),
        counts@.len() == 0 ==> r == 0,
        counts@.len() == 1 ==> r == counts@[0],
        counts@.len() == 2 ==> r == counts@[0] + counts@[1],
{
    proof {
        total_is_the_plain_sum(Seq::<i64>::empty(), 0);
        if counts@.len() >= 1 {
            total_is_the_plain_sum(Seq::<i64>::empty(), counts@[0]);
        }
        if counts@.len() == 2 {
            total_is_the_plain_sum(seq![counts@[0]], counts@[1]);
            assert(seq![counts@[0]].push(counts@[1]) =~= counts@);
        }
        if counts@.len() == 1 {
            assert(seq![counts@[0]] =~= counts@);
        }
    }
    let mut total: i64 = 0;
    let mut i: usize = 0;
    while i < counts.len()
        invariant
            i <= counts@.len(),
            total == sum_counts(counts@.take(i as int)),
            forall|k: int|
                0 <= k <= counts@.len() ==> i64::MIN <= #[trigger] sum_counts(counts@.take(k))
                    <= i64::MAX,
        decreases counts@.len() - i,
    {
        proof {
            assert(counts@.take(i + 1).drop_last() =~= counts@.take(i as int));
            assert(sum_counts(counts@.take(i + 1)) == total + counts@[i as int]);
            assert(i64::MIN <= sum_counts(counts@.take(i + 1)) <= i64::MAX);
        }
        total = total + counts[i];
        i = i + 1;
    }
    proof {
        assert(counts@.take(i as int) =~= counts@);
    }
    total
}

} // verus!

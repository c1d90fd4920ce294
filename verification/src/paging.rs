//! Keyset pagination for the feeds: the `<rfc3339>_<uuid>` cursor, the page
//! size clamp, and the split of a fetched batch into a page and a has-more
//! flag.
use vstd::prelude::*;
use crate::text;

verus! {

// ---------------------------------------------------------------------------
// Splitting at the last separator (`str::rsplit_once`)
// ---------------------------------------------------------------------------

/// Index of the last occurrence of `c` in `s`.
pub open spec fn last_index_of(s: Seq<char>, c: char) -> Option<int>
    decreases s.len(),
{
    if s.len() == 0 {
        None
    } else if s.last() == c {
        Some(s.len() - 1)
    } else {
        last_index_of(s.drop_last(), c)
    }
}

/// The parts of `s` before and after its last `c`; `None` when `c` does not
/// occur.
pub open spec fn split_last(s: Seq<char>, c: char) -> Option<(Seq<char>, Seq<char>)> {
    match last_index_of(s, c) {
        None => None,
        Some(i) => Some((s.take(i), s.skip(i + 1))),
    }
}

proof fn lemma_last_index_char(s: Seq<char>, c: char, i: int)
    requires
        0 <= i < s.len(),
        s[i] == c,
        forall|j: int| i < j < s.len() ==> s[j] != c,
    ensures
        last_index_of(s, c) == Some(i),
    decreases s.len(),
{
    if s.len() - 1 != i {
        assert(s.drop_last()[i] == c);
        lemma_last_index_char(s.drop_last(), c, i);
    }
}

proof fn lemma_last_index_none(s: Seq<char>, c: char)
    requires
        forall|j: int| 0 <= j < s.len() ==> s[j] != c,
    ensures
        last_index_of(s, c) is None,
    decreases s.len(),
{
    if s.len() > 0 {
        lemma_last_index_none(s.drop_last(), c);
    }
}

fn slice_range(v: &[char], from: usize, to: usize) -> (r: String)
    requires
        from <= to <= v@.len(),
    ensures
        r@ == v@.subrange(from as int, to as int),
{
    let mut out = String::new();
    let mut i = from;
    while i < to
        invariant
            from <= i <= to <= v@.len(),
            out@ == v@.subrange(from as int, i as int),
        decreases to - i,
    {
        out.push(v[i]);
        assert(v@.subrange(from as int, i + 1) =~= v@.subrange(from as int, i as int).push(
            v@[i as int],
        ));
        i = i + 1;
    }
    out
}

/// Split `s` at its last `c`.
pub fn rsplit_once(s: &str, c: char) -> (r: Option<(String, String)>)
    ensures
        match r {
            None => split_last(s@, c) is None,
            Some((a, b)) => split_last(s@, c) == Some((a@, b@)),
        },
{
    let v = text::chars_of(s);
    let mut i = v.len();
    while i > 0 && v[i - 1] != c
        invariant
            v@ == s@,
            i <= v@.len(),
            forall|j: int| i <= j < v@.len() ==> v@[j] != c,
        decreases i,
    {
        i = i - 1;
    }
    if i == 0 {
        proof {
            lemma_last_index_none(v@, c);
        }
        return None;
    }
    proof {
        lemma_last_index_char(v@, c, i - 1);
    }
    let a = slice_range(&v, 0, i - 1);
    let b = slice_range(&v, i, v.len());
    assert(a@ =~= v@.take(i - 1));
    assert(b@ =~= v@.skip(i as int));
    Some((a, b))
}

// ---------------------------------------------------------------------------
// Cursor
// ---------------------------------------------------------------------------

/// An instant as chrono's `DateTime<FixedOffset>` holds it: seconds since
/// the epoch, sub-second nanoseconds, and the offset east of UTC in seconds.
pub type Instant = (i64, u32, i32);

/// What `chrono::DateTime::parse_from_rfc3339` gives for a text: the
/// instant, or `None` when the text is not an RFC 3339 date-time.
pub uninterp spec fn rfc3339_parse(s: Seq<char>) -> Option<Instant>;

/// What `uuid::Uuid::parse_str` gives for a text: the 128-bit value (big
/// endian), or `None` when the text is not a UUID in one of its formats.
pub uninterp spec fn uuid_parse(s: Seq<char>) -> Option<u128>;

/// Calls `chrono::DateTime::parse_from_rfc3339`. The contract names the
/// result; the RFC 3339 grammar is not restated.
#[verifier::external_body]
pub(crate) fn parse_rfc3339(s: &str) -> (r: Option<Instant>)
    ensures
        r == rfc3339_parse(s@),
{
    match chrono::DateTime::parse_from_rfc3339(s) {
        Ok(dt) => Some((dt.timestamp(), dt.timestamp_subsec_nanos(), dt.offset().local_minus_utc())),
        Err(_) => None,
    }
}

/// Calls `uuid::Uuid::parse_str`. The contract names the result.
#[verifier::external_body]
fn parse_uuid(s: &str) -> (r: Option<u128>)
    ensures
        r == uuid_parse(s@),
{
    match uuid::Uuid::parse_str(s) {
        Ok(u) => Some(u.as_u128()),
        Err(_) => None,
    }
}

/// The decoded cursor from its decoded parts: present only when both are.
pub fn cursor_from_parts(ts: Option<Instant>, id: Option<u128>) -> (r: Option<(Instant, u128)>)
    ensures
        r == (match (ts, id) {
            (Some(t), Some(u)) => Some((t, u)),
            _ => None,
        }),
{
    match (ts, id) {
        (Some(t), Some(u)) => Some((t, u)),
        _ => None,
    }
}

/// The cursor `<rfc3339>_<uuid>` decoded: split at the last `_`, then both
/// parts parsed.
pub open spec fn spec_parse_cursor(s: Seq<char>) -> Option<(Instant, u128)> {
    match split_last(s, '_') {
        None => None,
        Some((ts, id)) => match (rfc3339_parse(ts), uuid_parse(id)) {
            (Some(t), Some(u)) => Some((t, u)),
            _ => None,
        },
    }
}

/// Decode a feed cursor into the published-at instant and row id of the
/// last row of the previous page.
pub fn parse_cursor(cursor: &str) -> (r: Option<(Instant, u128)>)
    ensures
        r == spec_parse_cursor(cursor@),
{
    match rsplit_once(cursor, '_') {
        None => None,
        Some((ts, id)) => {
            let t = parse_rfc3339(ts.as_str());
            let u = parse_uuid(id.as_str());
            cursor_from_parts(t, u)
        },
    }
}

/// The cursor text for a row: the RFC 3339 rendering of its published-at
/// instant, `_`, and its id.
pub fn build_cursor(ts_text: &str, id_text: &str) -> (r: String)
    ensures
        r@ == ts_text@ + "_"@ + id_text@,
{
    let mut s = text::owned(ts_text);
    s.append("_");
    s.append(id_text);
    s
}

/// Splitting a built cursor at its last `_` gives back the two parts, as
/// long as the id text holds no `_` (a UUID's text never does).
pub proof fn cursor_split_roundtrip(ts_text: Seq<char>, id_text: Seq<char>)
    requires
        forall|j: int| 0 <= j < id_text.len() ==> id_text[j] != '_',
    ensures
        split_last(ts_text + "_"@ + id_text, '_') == Some((ts_text, id_text)),
{
    reveal_strlit("_");
    let s = ts_text + "_"@ + id_text;
    let i = ts_text.len() as int;
    assert(s[i] == '_');
    assert forall|j: int| i < j < s.len() implies s[j] != '_' by {
        assert(s[j] == id_text[j - i - 1]);
    }
    lemma_last_index_char(s, '_', i);
    assert(s.take(i) =~= ts_text);
    assert(s.skip(i + 1) =~= id_text);
}

// ---------------------------------------------------------------------------
// Page size and page split
// ---------------------------------------------------------------------------

/// The page size: the requested limit or the default, clamped to
/// `1..=max`.
pub open spec fn spec_page_limit(requested: Option<u64>, default: u64, max: u64) -> u64 {
    let l = match requested {
        Some(l) => l,
        None => default,
    };
    if l < 1 {
        1
    } else if l > max {
        max
    } else {
        l
    }
}

/// The page size is the requested one (the default when none is asked for)
/// clamped to `1..=max`: a size already in range is kept, a smaller one
/// becomes 1 and a larger one `max`.
pub proof fn page_limit_clamps_the_request(requested: Option<u64>, default: u64, max: u64)
    requires
        1 <= max,
    ensures
        ({
            let l = match requested {
                Some(x) => x,
                None => default,
            };
            &&& 1 <= l <= max ==> spec_page_limit(requested, default, max) == l
            &&& l < 1 ==> spec_page_limit(requested, default, max) == 1
            &&& l > max ==> spec_page_limit(requested, default, max) == max
        }),
{
}

pub fn page_limit(requested: Option<u64>, default: u64, max: u64) -> (r: u64)
    requires
        1 <= max,
    ensures
        r == spec_page_limit(requested, default, max),
        1 <= r <= max,
        requested matches Some(l) ==> (1 <= l <= max ==> r == l),
        requested is None && 1 <= default <= max ==> r == default,
        r == (if requested.unwrap_or(default) < 1 {
            1
        } else if requested.unwrap_or(default) > max {
            max
        } else {
            requested.unwrap_or(default)
        }),
{
    let l = match requested {
        Some(l) => l,
        None => default,
    };
    if l < 1 {
        1
    } else if l > max {
        max
    } else {
        l
    }
}

/// Split a batch fetched with one row beyond `limit`: the first `limit`
/// rows form the page, and there is a next page exactly when the batch held
/// more than `limit` rows.
pub fn take_page<T>(rows: Vec<T>, limit: u64) -> (r: (Vec<T>, bool))
    ensures
        r.1 == (rows@.len() > limit),
        r.0@ == (if rows@.len() > limit { rows@.take(limit as int) } else { rows@ }),
{
    let has_more = rows.len() as u64 > limit;
    let mut rows = rows;
    if has_more {
        rows.truncate(limit as usize);
    }
    (rows, has_more)
}

// ---------------------------------------------------------------------------
// Rendering a row's cursor
// ---------------------------------------------------------------------------

/// The RFC 3339 rendering in UTC of an instant (seconds since the epoch and
/// nanoseconds) as chrono produces it; `None` out of chrono's range.
pub uninterp spec fn rfc3339_render(secs: i64, nanos: u32) -> Option<Seq<char>>;

/// The hyphenated lower-case text of a UUID.
pub uninterp spec fn uuid_text(id: u128) -> Seq<char>;

/// Calls `chrono::DateTime::<Utc>::from_timestamp` and `to_rfc3339`. The
/// text is named.
#[verifier::external_body]
fn render_rfc3339(secs: i64, nanos: u32) -> (r: Option<String>)
    ensures
        match r {
            Some(t) => rfc3339_render(secs, nanos) == Some(t@),
            None => rfc3339_render(secs, nanos) is None,
        },
{
    chrono::DateTime::from_timestamp(secs, nanos).map(|dt| dt.to_rfc3339())
}

/// Calls `uuid::Uuid::from_u128(..).to_string()`. The text is named; as
/// the crate's formatter and round-trip tests show, it is 36 characters of
/// lower-case hex digits and hyphens, and `Uuid::parse_str` reads it back.
#[verifier::external_body]
pub(crate) fn render_uuid(id: u128) -> (r: String)
    ensures
        r@ == uuid_text(id),
        r@.len() == 36,
        forall|i: int|
            0 <= i < r@.len() ==> (#[trigger] r@[i] == '-' || text::spec_is_ascii_digit(r@[i]) || (
            'a' <= r@[i] && r@[i] <= 'f')),
        uuid_parse(r@) == Some(id),
{
    uuid::Uuid::from_u128(id).to_string()
}

/// The cursor of the next page: present when there is one, made from the
/// last row of this page (its published-at instant and id). `None` also
/// when the instant is outside chrono's range.
pub fn next_cursor(last: Option<(Instant, u128)>, has_more: bool) -> (r: Option<String>)
    ensures
        match last {
            Some((t, id)) if has_more => match rfc3339_render(t.0, t.1) {
                Some(ts) => r matches Some(c) && c@ == ts + "_"@ + uuid_text(id),
                None => r is None,
            },
            _ => r is None,
        },
{
    if !has_more {
        return None;
    }
    match last {
        None => None,
        Some((t, id)) => match render_rfc3339(t.0, t.1) {
            None => None,
            Some(ts) => {
                let id_text = render_uuid(id);
                Some(build_cursor(ts.as_str(), id_text.as_str()))
            },
        },
    }
}

/// The id part of a cursor built for a row decodes back to the row's id.
pub proof fn cursor_id_roundtrip(ts_text: Seq<char>, id: u128)
    requires
        uuid_text(id).len() == 36,
        forall|i: int| 0 <= i < uuid_text(id).len() ==> #[trigger] uuid_text(id)[i] != '_',
        uuid_parse(uuid_text(id)) == Some(id),
    ensures
        split_last(ts_text + "_"@ + uuid_text(id), '_') matches Some((a, b)) && a == ts_text
            && uuid_parse(b) == Some(id),
{
    cursor_split_roundtrip(ts_text, uuid_text(id));
}

} // verus!

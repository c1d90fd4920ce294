//! Articles: reading time, plain-text excerpts from rendered HTML, input
//! validation for titles and optional text fields, and the draft and
//! publication rules.
use vstd::prelude::*;
use crate::text;
use crate::errors::AppError;
use crate::entities::{self, VISIBILITY_PRIVATE, VISIBILITY_PUBLIC};
use crate::paging;

verus! {

/// Length cap of the auto-derived excerpt, in characters.
pub const EXCERPT_MAX_CHARS: usize = 200;

// ---------------------------------------------------------------------------
// Reading time
// ---------------------------------------------------------------------------

/// Minutes to read `body` at 200 words per minute, rounded up, at least one.
pub open spec fn reading_minutes(body: Seq<char>) -> int {
    let w = text::words(body).len();
    let m = w / 200 + (if w % 200 == 0 { 0int } else { 1 });
    if m < 1 {
        1
    } else {
        m
    }
}

/// Word count to minutes at 200 words per minute, at least one; the value
/// is converted to `i32` as the stored column type demands.
pub fn compute_reading_time_minutes(body: &str) -> (r: i32)
    ensures
        r == reading_minutes(body@) as i32,
{
    let v = text::chars_of(body);
    let words = text::count_words(&v);
    let minutes = words / 200 + if words % 200 == 0 {
        0
    } else {
        1
    };
    let m = if minutes < 1 {
        1
    } else {
        minutes
    };
    m as i32
}

// ---------------------------------------------------------------------------
// HTML to plain text
// ---------------------------------------------------------------------------

/// Whether the scanner is inside a tag after reading `s`: a `<` opens a tag,
/// a `>` closes it.
pub open spec fn in_tag_after(s: Seq<char>) -> bool
    decreases s.len(),
{
    if s.len() == 0 {
        false
    } else if s.last() == '<' {
        true
    } else if s.last() == '>' {
        false
    } else {
        in_tag_after(s.drop_last())
    }
}

/// The characters of `s` outside tags; `<` and `>` themselves are dropped.
pub open spec fn strip_tags(s: Seq<char>) -> Seq<char>
    decreases s.len(),
{
    if s.len() == 0 {
        s
    } else {
        let prev = strip_tags(s.drop_last());
        let c = s.last();
        if c == '<' || c == '>' || in_tag_after(s.drop_last()) {
            prev
        } else {
            prev.push(c)
        }
    }
}

/// Whether `s` begins with `p`.
pub open spec fn begins(s: Seq<char>, p: Seq<char>) -> bool {
    p.len() <= s.len() && s.take(p.len() as int) == p
}

pub open spec fn ent_amp() -> Seq<char> {
    seq!['&', 'a', 'm', 'p', ';']
}

pub open spec fn ent_lt() -> Seq<char> {
    seq!['&', 'l', 't', ';']
}

pub open spec fn ent_gt() -> Seq<char> {
    seq!['&', 'g', 't', ';']
}

pub open spec fn ent_quot() -> Seq<char> {
    seq!['&', 'q', 'u', 'o', 't', ';']
}

pub open spec fn ent_apos() -> Seq<char> {
    seq!['&', '#', '3', '9', ';']
}

/// The five entities the sanitizer emits (`&amp;`, `&lt;`, `&gt;`,
/// `&quot;`, `&#39;`) decoded in one left-to-right pass: each entity once,
/// so the `&` that `&amp;` gives never starts another entity.
pub open spec fn decode_entities(s: Seq<char>) -> Seq<char>
    decreases s.len(),
{
    if s.len() == 0 {
        s
    } else if begins(s, ent_amp()) {
        seq!['&'] + decode_entities(s.skip(5))
    } else if begins(s, ent_lt()) {
        seq!['<'] + decode_entities(s.skip(4))
    } else if begins(s, ent_gt()) {
        seq!['>'] + decode_entities(s.skip(4))
    } else if begins(s, ent_quot()) {
        seq!['"'] + decode_entities(s.skip(6))
    } else if begins(s, ent_apos()) {
        seq!['\''] + decode_entities(s.skip(5))
    } else {
        seq![s[0]] + decode_entities(s.drop_first())
    }
}

/// Tag-stripped text with the sanitizer's entities decoded.
pub open spec fn spec_html_to_plain_text(html: Seq<char>) -> Seq<char> {
    decode_entities(strip_tags(html))
}

fn strip_tag_chars(v: &[char]) -> (r: Vec<char>)
    ensures
        r@ == strip_tags(v@),
{
    let mut out: Vec<char> = Vec::new();
    let mut in_tag = false;
    let mut i: usize = 0;
    while i < v.len()
        invariant
            i <= v@.len(),
            out@ == strip_tags(v@.take(i as int)),
            in_tag == in_tag_after(v@.take(i as int)),
        decreases v@.len() - i,
    {
        let c = v[i];
        assert(v@.take(i + 1).drop_last() =~= v@.take(i as int));
        if c == '<' {
            in_tag = true;
        } else if c == '>' {
            in_tag = false;
        } else if !in_tag {
            out.push(c);
        }
        i = i + 1;
    }
    assert(v@.take(i as int) =~= v@);
    out
}

/// Whether `v` has the literal `lit` at position `i`.
fn lit_at(v: &[char], i: usize, lit: &str) -> (r: bool)
    requires
        i <= v@.len(),
    ensures
        r == begins(v@.skip(i as int), lit@),
{
    let p = text::chars_of(lit);
    let r = text::matches_at(v, &p, i);
    proof {
        if lit@.len() <= v@.len() - i {
            assert(v@.skip(i as int).take(lit@.len() as int) =~= v@.subrange(
                i as int,
                i + lit@.len(),
            ));
        }
    }
    r
}

fn decode_entity_chars(v: &[char]) -> (r: Vec<char>)
    ensures
        r@ == decode_entities(v@),
{
    proof {
        reveal_strlit("&amp;");
        reveal_strlit("&lt;");
        reveal_strlit("&gt;");
        reveal_strlit("&quot;");
        reveal_strlit("&#39;");
        assert("&amp;"@ =~= ent_amp());
        assert("&lt;"@ =~= ent_lt());
        assert("&gt;"@ =~= ent_gt());
        assert("&quot;"@ =~= ent_quot());
        assert("&#39;"@ =~= ent_apos());
    }
    let mut out: Vec<char> = Vec::new();
    let mut i: usize = 0;
    assert(v@.skip(0) =~= v@);
    while i < v.len()
        invariant
            i <= v@.len(),
            out@ + decode_entities(v@.skip(i as int)) == decode_entities(v@),
            "&amp;"@ == ent_amp(),
            "&lt;"@ == ent_lt(),
            "&gt;"@ == ent_gt(),
            "&quot;"@ == ent_quot(),
            "&#39;"@ == ent_apos(),
        decreases v@.len() - i,
    {
        let ghost rest = v@.skip(i as int);
        let ghost before = out@;
        let step: usize;
        if lit_at(v, i, "&amp;") {
            out.push('&');
            step = 5;
        } else if lit_at(v, i, "&lt;") {
            out.push('<');
            step = 4;
        } else if lit_at(v, i, "&gt;") {
            out.push('>');
            step = 4;
        } else if lit_at(v, i, "&quot;") {
            out.push('"');
            step = 6;
        } else if lit_at(v, i, "&#39;") {
            out.push('\'');
            step = 5;
        } else {
            out.push(v[i]);
            step = 1;
        }
        proof {
            assert(rest.skip(step as int) =~= v@.skip(i + step));
            assert(rest.drop_first() =~= v@.skip(i + 1));
            assert(decode_entities(rest) == seq![out@.last()] + decode_entities(rest.skip(step as int)));
            assert(out@ =~= before.push(out@.last()));
            assert(before + (seq![out@.last()] + decode_entities(v@.skip(i + step))) =~= out@
                + decode_entities(v@.skip(i + step)));
        }
        i = i + step;
    }
    proof {
        assert(v@.skip(i as int) =~= Seq::<char>::empty());
        assert(out@ + Seq::<char>::empty() =~= out@);
    }
    out
}

fn html_to_plain_chars(html: &[char]) -> (r: Vec<char>)
    ensures
        r@ == spec_html_to_plain_text(html@),
{
    let t = strip_tag_chars(html);
    decode_entity_chars(&t)
}

/// Strip tags from sanitized HTML and decode the entities the sanitizer
/// emits.
pub fn html_to_plain_text(html: &str) -> (r: String)
    ensures
        r@ == spec_html_to_plain_text(html@),
{
    let v = text::chars_of(html);
    let r = html_to_plain_chars(&v);
    text::string_of(&r)
}

// ---------------------------------------------------------------------------
// Excerpts
// ---------------------------------------------------------------------------

/// The excerpt of plain text `t`: its white space collapsed; absent when
/// nothing is left; cut to 200 characters, trailing white space removed and
/// an ellipsis appended when longer.
pub open spec fn excerpt_of_text(t: Seq<char>) -> Option<Seq<char>> {
    let c = text::collapse_whitespace(t);
    if c.len() == 0 {
        None
    } else if c.len() > 200 {
        Some(text::trim_end(c.take(200)).push('\u{2026}'))
    } else {
        Some(c)
    }
}

/// The excerpt of an article whose markdown `body` renders to `html`:
/// absent for a blank body, otherwise the excerpt of the HTML's plain text.
pub open spec fn spec_derive_excerpt(body: Seq<char>, html: Seq<char>) -> Option<Seq<char>> {
    if text::trim(body).len() == 0 {
        None
    } else {
        excerpt_of_text(spec_html_to_plain_text(html))
    }
}

/// Derive a plain-text excerpt for the feed card from the article's markdown
/// `body` and the sanitized HTML that the server-side renderer produced from
/// it.
pub fn derive_excerpt(body: &str, rendered_html: &str) -> (r: Option<String>)
    ensures
        match r {
            None => spec_derive_excerpt(body@, rendered_html@) is None,
            Some(s) => spec_derive_excerpt(body@, rendered_html@) == Some(s@),
        },
{
    let b = text::chars_of(body);
    let tb = text::trim_chars(&b);
    if tb.len() == 0 {
        return None;
    }
    let h = text::chars_of(rendered_html);
    let plain = html_to_plain_chars(&h);
    let collapsed = text::collapse_whitespace_chars(&plain);
    if collapsed.len() == 0 {
        return None;
    }
    let truncated = text::take_chars(&collapsed, EXCERPT_MAX_CHARS);
    if collapsed.len() > EXCERPT_MAX_CHARS {
        let mut t = text::trim_end_chars(&truncated);
        t.push('\u{2026}');
        Some(text::string_of(&t))
    } else {
        Some(text::string_of(&truncated))
    }
}

/// The first `max_chars` characters of `body`, followed by `...` when the
/// body is longer.
pub open spec fn spec_short_excerpt(body: Seq<char>, max_chars: nat) -> Seq<char> {
    if body.len() > max_chars {
        body.take(max_chars as int) + "..."@
    } else {
        body
    }
}

/// Trim a markdown source to its first `max_chars` characters, ending with
/// `...` when truncated. Works on characters, never bytes.
pub fn excerpt(body: &str, max_chars: usize) -> (r: String)
    ensures
        r@ == spec_short_excerpt(body@, max_chars as nat),
{
    let v = text::chars_of(body);
    let t = text::take_chars(&v, max_chars);
    let mut out = text::string_of(&t);
    if v.len() > max_chars {
        let dots = text::owned("...");
        out.append(dots.as_str());
    }
    out
}

// ---------------------------------------------------------------------------
// Input validation
// ---------------------------------------------------------------------------

/// The message for a value over its character limit.
pub open spec fn limit_message(label: Seq<char>, max: nat) -> Seq<char> {
    label + " exceeds "@ + text::decimal(max) + "-character limit"@
}

pub(crate) fn limit_message_string(label: &str, max: usize) -> (s: String)
    ensures
        s@ == limit_message(label@, max as nat),
{
    let mut s = text::owned(label);
    s.append(" exceeds ");
    let d = text::decimal_string(max);
    s.append(d.as_str());
    s.append("-character limit");
    s
}

/// A required title: trimmed; empty is refused, more than `max_len`
/// characters is refused; otherwise the trimmed title.
pub fn validate_title(input: &str, max_len: usize) -> (r: Result<String, AppError>)
    ensures
        ({
            let t = text::trim(input@);
            match r {
                Ok(s) => t.len() > 0 && t.len() <= max_len && s@ == t,
                Err(AppError::ValidationError(m)) => if t.len() == 0 {
                    m@ == "Article title is required"@
                } else {
                    t.len() > max_len && m@ == limit_message("Title"@, max_len as nat)
                },
                Err(_) => false,
            }
        }),
{
    let v = text::chars_of(input);
    let t = text::trim_chars(&v);
    if t.len() == 0 {
        return Err(AppError::ValidationError(text::owned("Article title is required")));
    }
    if t.len() > max_len {
        return Err(AppError::ValidationError(limit_message_string("Title", max_len)));
    }
    Ok(text::string_of(&t))
}

/// An optional text field: absent or blank gives `None`; more than
/// `max_chars` characters (after trimming) is refused with a message naming
/// `field`; otherwise the trimmed text.
pub fn validate_optional_string(field: &str, input: Option<&str>, max_chars: usize) -> (r: Result<
    Option<String>,
    AppError,
>)
    ensures
        match input {
            None => r == Ok::<Option<String>, AppError>(None),
            Some(s) => {
                let t = text::trim(s@);
                match r {
                    Ok(None) => t.len() == 0,
                    Ok(Some(o)) => 0 < t.len() <= max_chars && o@ == t,
                    Err(AppError::ValidationError(m)) => t.len() > max_chars && m@
                        == limit_message(field@, max_chars as nat),
                    Err(_) => false,
                }
            },
        },
{
    match input {
        None => Ok(None),
        Some(s) => {
            let v = text::chars_of(s);
            let t = text::trim_chars(&v);
            if t.len() == 0 {
                return Ok(None);
            }
            if t.len() > max_chars {
                return Err(AppError::ValidationError(limit_message_string(field, max_chars)));
            }
            Ok(Some(text::string_of(&t)))
        },
    }
}

/// A derived excerpt is never empty and never longer than 201 characters
/// (200 plus the ellipsis).
pub proof fn derived_excerpt_is_bounded(body: Seq<char>, html: Seq<char>)
    ensures
        spec_derive_excerpt(body, html) matches Some(e) ==> 0 < e.len() <= 201,
{
    if let Some(e) = spec_derive_excerpt(body, html) {
        let c = text::collapse_whitespace(spec_html_to_plain_text(html));
        if c.len() > 200 {
            lemma_trim_end_len(c.take(200));
        }
    }
}

proof fn lemma_trim_end_len(s: Seq<char>)
    ensures
        text::trim_end(s).len() <= s.len(),
    decreases s.len(),
{
    if s.len() > 0 && text::spec_is_whitespace(s.last()) {
        lemma_trim_end_len(s.drop_last());
    }
}

/// Reading time is at least one minute for every body.
pub proof fn reading_time_at_least_one(body: Seq<char>)
    ensures
        reading_minutes(body) >= 1,
{
}

// ---------------------------------------------------------------------------
// Drafts and publication
// ---------------------------------------------------------------------------

/// The message of a refused visibility value.
pub open spec fn invalid_visibility_message(v: Seq<char>) -> Seq<char> {
    "Invalid visibility '"@ + v + "'"@
}

fn invalid_visibility(v: &str) -> (e: AppError)
    ensures
        e matches AppError::ValidationError(m) && m@ == invalid_visibility_message(v@),
{
    let mut m = text::owned("Invalid visibility '");
    m.append(v);
    m.append("'");
    AppError::ValidationError(m)
}

/// Check a visibility an update supplies: absent, or one of the tiers.
pub fn check_visibility(v: Option<&str>) -> (r: Result<(), AppError>)
    ensures
        match v {
            None => r is Ok,
            Some(t) => {
                &&& r is Ok <==> entities::spec_is_valid_visibility(t@)
                &&& r matches Err(e) ==> e matches AppError::ValidationError(m) && m@
                    == invalid_visibility_message(t@)
            },
        },
{
    match v {
        None => Ok(()),
        Some(t) => if entities::is_valid_visibility(t) {
            Ok(())
        } else {
            Err(invalid_visibility(t))
        },
    }
}

/// The visibility of a new article: a draft is private; otherwise the
/// given tier, public by default, which must be one of the tiers.
pub fn creation_visibility(is_draft: bool, visibility: Option<&str>) -> (r: Result<String, AppError>)
    ensures
        is_draft ==> (r matches Ok(v) && v@ == VISIBILITY_PRIVATE@),
        !is_draft ==> ({
            let want = match visibility {
                Some(t) => t@,
                None => VISIBILITY_PUBLIC@,
            };
            &&& r is Ok <==> entities::spec_is_valid_visibility(want)
            &&& r matches Ok(v) ==> v@ == want
            &&& r matches Err(e) ==> e matches AppError::ValidationError(m) && m@
                == invalid_visibility_message(want)
        }),
{
    if is_draft {
        return Ok(text::owned(VISIBILITY_PRIVATE));
    }
    let v = match visibility {
        Some(t) => t,
        None => VISIBILITY_PUBLIC,
    };
    if !entities::is_valid_visibility(v) {
        return Err(invalid_visibility(v));
    }
    Ok(text::owned(v))
}

/// Whether an update publishes a draft.
pub open spec fn spec_is_publishing(current_is_draft: bool, req_is_draft: Option<bool>) -> bool {
    req_is_draft == Some(false) && current_is_draft
}

/// Whether the article is a draft after the update.
pub open spec fn spec_resulting_draft(current_is_draft: bool, req_is_draft: Option<bool>) -> bool {
    match req_is_draft {
        Some(d) => d,
        None => current_is_draft,
    }
}

/// The visibility after the update: private while the article remains a
/// draft whatever was asked; otherwise the supplied tier; on publication
/// without one, public; otherwise unchanged.
pub open spec fn spec_resulting_visibility(
    current_is_draft: bool,
    current_visibility: Seq<char>,
    req_is_draft: Option<bool>,
    req_visibility: Option<Seq<char>>,
) -> Seq<char> {
    if spec_resulting_draft(current_is_draft, req_is_draft) {
        VISIBILITY_PRIVATE@
    } else {
        match req_visibility {
            Some(v) => v,
            None => if spec_is_publishing(current_is_draft, req_is_draft) {
                VISIBILITY_PUBLIC@
            } else {
                current_visibility
            },
        }
    }
}

/// The publication state after an update.
pub struct Publication {
    pub is_draft: bool,
    pub visibility: String,
    /// Whether `published_at` moves to now: on the first publication only.
    pub bump_published_at: bool,
}

/// Decide the draft flag, the visibility and the publication time of an
/// updated article. Turning a published article back into a draft is
/// refused.
pub fn plan_publication(
    current_is_draft: bool,
    current_visibility: &str,
    req_is_draft: Option<bool>,
    req_visibility: Option<&str>,
) -> (r: Result<Publication, AppError>)
    ensures
        (!current_is_draft && req_is_draft == Some(true)) ==> (r matches Err(e) && e matches AppError::ValidationError(m) && m@ == "Cannot un-publish an article"@),
        !(!current_is_draft && req_is_draft == Some(true)) ==> (r matches Ok(p) && {
            &&& p.is_draft == spec_resulting_draft(current_is_draft, req_is_draft)
            &&& p.visibility@ == spec_resulting_visibility(
                current_is_draft,
                current_visibility@,
                req_is_draft,
                match req_visibility {
                    Some(v) => Some(v@),
                    None => None,
                },
            )
            &&& p.bump_published_at == spec_is_publishing(current_is_draft, req_is_draft)
        }),
{
    if !current_is_draft && req_is_draft == Some(true) {
        return Err(AppError::ValidationError(text::owned("Cannot un-publish an article")));
    }
    let is_publishing = req_is_draft == Some(false) && current_is_draft;
    let resulting_draft = match req_is_draft {
        Some(d) => d,
        None => current_is_draft,
    };
    let visibility = if resulting_draft {
        text::owned(VISIBILITY_PRIVATE)
    } else {
        match req_visibility {
            Some(v) => text::owned(v),
            None => if is_publishing {
                text::owned(VISIBILITY_PUBLIC)
            } else {
                text::owned(current_visibility)
            },
        }
    };
    Ok(Publication { is_draft: resulting_draft, visibility, bump_published_at: is_publishing })
}

/// An article that remains a draft after an update is private, whatever
/// visibility the update supplied.
pub proof fn drafts_stay_private(
    current_is_draft: bool,
    current_visibility: Seq<char>,
    req_is_draft: Option<bool>,
    req_visibility: Option<Seq<char>>,
)
    requires
        spec_resulting_draft(current_is_draft, req_is_draft),
    ensures
        spec_resulting_visibility(current_is_draft, current_visibility, req_is_draft, req_visibility)
            == VISIBILITY_PRIVATE@,
{
}

/// The publication time moves exactly once in an article's life: on the
/// update that turns a draft into a published article, never on a later
/// one, since a published article cannot return to draft.
pub proof fn published_at_moves_once(
    current_is_draft: bool,
    first: Option<bool>,
    second: Option<bool>,
)
    requires
        !(!current_is_draft && first == Some(true)),
        spec_is_publishing(current_is_draft, first),
    ensures
        !spec_resulting_draft(current_is_draft, first),
        !spec_is_publishing(spec_resulting_draft(current_is_draft, first), second),
{
}

/// The URL that serves an article's cover image.
pub fn media_url(id: u128) -> (r: String)
    ensures
        r@ == "/media/"@ + paging::uuid_text(id),
{
    let mut u = text::owned("/media/");
    let t = paging::render_uuid(id);
    u.append(t.as_str());
    u
}

/// A reference field (category, cover) after a patch: cleared when the
/// patch asks for it, whatever else it holds; otherwise the requested value
/// when one is given; otherwise unchanged.
pub fn patched_reference(clear: bool, requested: Option<u128>, current: Option<u128>) -> (r: Option<
    u128,
>)
    ensures
        r == (if clear {
            None
        } else if requested is Some {
            requested
        } else {
            current
        }),
{
    if clear {
        None
    } else if requested.is_some() {
        requested
    } else {
        current
    }
}

/// The body stored for an edited article: the submitted text without its
/// trailing white space.
pub fn stored_body(body: &str) -> (r: String)
    ensures
        r@ == text::trim_end(body@),
{
    let v = text::chars_of(body);
    let t = text::trim_end_chars(&v);
    text::string_of(&t)
}

/// Whether an edit derives the excerpt again from the new body: the body
/// was submitted, no excerpt was, and the article holds no excerpt.
pub fn refresh_excerpt(body_submitted: bool, excerpt_submitted: bool, has_excerpt: bool) -> (r: bool)
    ensures
        r == (body_submitted && !excerpt_submitted && !has_excerpt),
{
    body_submitted && !excerpt_submitted && !has_excerpt
}

} // verus!

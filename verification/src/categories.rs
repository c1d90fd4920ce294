//! Categories: slug rules and the create/manage permission checks.
//!
//! Slug rules: lowercase ASCII letters, digits and `-`, 2 to 50 characters.
//! Slugs are derived from the category name when the creator supplies none.
use vstd::prelude::*;
use crate::text;
use crate::entities::{ROLE_ADMINISTRATOR, ROLE_POSTER, VISIBILITY_PUBLIC};
use crate::errors::AppError;

verus! {

/// A character allowed in a slug.
pub open spec fn is_slug_char(c: char) -> bool {
    text::spec_is_ascii_lower(c) || text::spec_is_ascii_digit(c) || c == '-'
}

pub fn slug_char(c: char) -> (r: bool)
    ensures
        r == is_slug_char(c),
{
    text::is_ascii_lower(c) || text::is_ascii_digit(c) || c == '-'
}

/// `s` has between 2 and 50 characters, each allowed in a slug.
pub open spec fn is_valid_slug(s: Seq<char>) -> bool {
    &&& 2 <= s.len() <= 50
    &&& forall|i: int| 0 <= i < s.len() ==> is_slug_char(#[trigger] s[i])
}

pub open spec fn msg_slug_length() -> Seq<char> {
    "Slug must be 2-50 characters"@
}

pub open spec fn msg_slug_charset() -> Seq<char> {
    "Slug may only contain lowercase ASCII letters, digits, and hyphens"@
}

/// Check the slug shape. The length rule is checked first, then the
/// character set.
pub fn validate_slug_shape(slug: &str) -> (r: Result<(), String>)
    ensures
        r is Ok <==> is_valid_slug(slug@),
        r matches Err(m) ==> m@ == (if !(2 <= slug@.len() <= 50) {
            msg_slug_length()
        } else {
            msg_slug_charset()
        }),
{
    let len = text::char_count(slug);
    if !(2 <= len && len <= 50) {
        return Err(text::owned("Slug must be 2-50 characters"));
    }
    let v = text::chars_of(slug);
    let mut i: usize = 0;
    while i < v.len()
        invariant
            v@ == slug@,
            2 <= slug@.len() <= 50,
            i <= v@.len(),
            forall|j: int| 0 <= j < i ==> is_slug_char(#[trigger] v@[j]),
        decreases v@.len() - i,
    {
        if !slug_char(v[i]) {
            return Err(
                text::owned("Slug may only contain lowercase ASCII letters, digits, and hyphens"),
            );
        }
        i = i + 1;
    }
    Ok(())
}

// ---------------------------------------------------------------------------
// slugify
// ---------------------------------------------------------------------------

/// Step 1: lower-case ASCII, and every character not allowed in a slug
/// becomes `-`.
pub open spec fn slug_map_char(c: char) -> char {
    let lc = text::spec_to_ascii_lower(c);
    if is_slug_char(lc) {
        lc
    } else {
        '-'
    }
}

pub open spec fn slug_map(s: Seq<char>) -> Seq<char> {
    s.map_values(|c: char| slug_map_char(c))
}

/// Step 2: every run of dashes becomes a single dash.
pub open spec fn collapse_dashes(s: Seq<char>) -> Seq<char>
    decreases s.len(),
{
    if s.len() == 0 {
        s
    } else {
        let rest = collapse_dashes(s.drop_last());
        if s.last() == '-' && s.len() >= 2 && s[s.len() - 2] == '-' {
            rest
        } else {
            rest.push(s.last())
        }
    }
}

/// Drop leading dashes.
pub open spec fn trim_dash_start(s: Seq<char>) -> Seq<char>
    decreases s.len(),
{
    if s.len() > 0 && s[0] == '-' {
        trim_dash_start(s.drop_first())
    } else {
        s
    }
}

/// Drop trailing dashes.
pub open spec fn trim_dash_end(s: Seq<char>) -> Seq<char>
    decreases s.len(),
{
    if s.len() > 0 && s.last() == '-' {
        trim_dash_end(s.drop_last())
    } else {
        s
    }
}

/// The slug derived from `name`: map, collapse dash runs, trim dashes from
/// both ends, keep the first 50 characters.
pub open spec fn spec_slugify(name: Seq<char>) -> Seq<char> {
    let t = trim_dash_end(trim_dash_start(collapse_dashes(slug_map(name))));
    if t.len() <= 50 {
        t
    } else {
        t.take(50)
    }
}

proof fn lemma_collapse_push(s: Seq<char>, c: char)
    ensures
        collapse_dashes(s.push(c)) == (if c == '-' && s.len() >= 1 && s.last() == '-' {
            collapse_dashes(s)
        } else {
            collapse_dashes(s).push(c)
        }),
{
    assert(s.push(c).drop_last() =~= s);
    if s.len() >= 1 {
        assert(s.push(c)[s.push(c).len() - 2] == s.last());
    }
}

proof fn lemma_trim_dash_start_skip(s: Seq<char>, i: int)
    requires
        0 <= i <= s.len(),
        forall|j: int| 0 <= j < i ==> s[j] == '-',
    ensures
        trim_dash_start(s) == trim_dash_start(s.skip(i)),
    decreases i,
{
    if i > 0 {
        assert(s.drop_first().skip(i - 1) =~= s.skip(i));
        lemma_trim_dash_start_skip(s.drop_first(), i - 1);
    } else {
        assert(s.skip(0) =~= s);
    }
}

proof fn lemma_trim_dash_end_take(s: Seq<char>, i: int)
    requires
        0 <= i <= s.len(),
        forall|j: int| i <= j < s.len() ==> s[j] == '-',
    ensures
        trim_dash_end(s) == trim_dash_end(s.take(i)),
    decreases s.len() - i,
{
    if i < s.len() {
        assert(s.drop_last().take(i) =~= s.take(i));
        lemma_trim_dash_end_take(s.drop_last(), i);
    } else {
        assert(s.take(i) =~= s);
    }
}

/// Lower-case, replace every disallowed character by `-`, collapse runs of
/// `-`, trim leading and trailing `-`, truncate to 50 characters.
pub fn slugify(name: &str) -> (r: String)
    ensures
        r@ == spec_slugify(name@),
{
    let v = text::chars_of(name);
    // map
    let mut mapped: Vec<char> = Vec::new();
    let mut i: usize = 0;
    while i < v.len()
        invariant
            v@ == name@,
            i <= v@.len(),
            mapped@ == slug_map(v@.take(i as int)),
        decreases v@.len() - i,
    {
        let lc = text::to_ascii_lower(v[i]);
        let m = if slug_char(lc) {
            lc
        } else {
            '-'
        };
        assert(slug_map(v@.take(i + 1)) =~= slug_map(v@.take(i as int)).push(m));
        mapped.push(m);
        i = i + 1;
    }
    assert(v@.take(i as int) =~= v@);
    // collapse
    let mut collapsed: Vec<char> = Vec::new();
    let mut prev_dash = false;
    let mut k: usize = 0;
    while k < mapped.len()
        invariant
            k <= mapped@.len(),
            collapsed@ == collapse_dashes(mapped@.take(k as int)),
            prev_dash == (k > 0 && mapped@[k - 1] == '-'),
        decreases mapped@.len() - k,
    {
        let c = mapped[k];
        proof {
            lemma_collapse_push(mapped@.take(k as int), c);
            assert(mapped@.take(k + 1) =~= mapped@.take(k as int).push(c));
        }
        if c == '-' {
            if !prev_dash {
                collapsed.push(c);
            }
            prev_dash = true;
        } else {
            collapsed.push(c);
            prev_dash = false;
        }
        k = k + 1;
    }
    assert(mapped@.take(k as int) =~= mapped@);
    // trim dashes
    let mut a: usize = 0;
    while a < collapsed.len() && collapsed[a] == '-'
        invariant
            a <= collapsed@.len(),
            forall|j: int| 0 <= j < a ==> collapsed@[j] == '-',
        decreases collapsed@.len() - a,
    {
        a = a + 1;
    }
    proof {
        lemma_trim_dash_start_skip(collapsed@, a as int);
        if a < collapsed@.len() {
            assert(collapsed@.skip(a as int)[0] == collapsed@[a as int]);
        }
    }
    let ghost st = collapsed@.skip(a as int);
    assert(trim_dash_start(collapsed@) == st);
    let mut b = collapsed.len();
    while b > a && collapsed[b - 1] == '-'
        invariant
            a <= b <= collapsed@.len(),
            forall|j: int| b <= j < collapsed@.len() ==> collapsed@[j] == '-',
        decreases b,
    {
        b = b - 1;
    }
    proof {
        let n = b - a;
        assert forall|j: int| n <= j < st.len() implies st[j] == '-' by {
            assert(st[j] == collapsed@[a + j]);
        }
        lemma_trim_dash_end_take(st, n as int);
        if n > 0 {
            assert(st.take(n as int).last() == collapsed@[b - 1]);
        }
    }
    let ghost t = st.take((b - a) as int);
    assert(t == trim_dash_end(trim_dash_start(collapse_dashes(slug_map(name@)))));
    let end = if b - a > 50 {
        a + 50
    } else {
        b
    };
    let mut out = String::new();
    let mut q = a;
    while q < end
        invariant
            a <= q <= end <= b <= collapsed@.len(),
            out@ == collapsed@.subrange(a as int, q as int),
        decreases end - q,
    {
        out.push(collapsed[q]);
        assert(collapsed@.subrange(a as int, q + 1) =~= collapsed@.subrange(a as int, q as int).push(
            collapsed@[q as int],
        ));
        q = q + 1;
    }
    proof {
        if t.len() <= 50 {
            assert(out@ =~= t);
        } else {
            assert(out@ =~= t.take(50));
        }
    }
    out
}

// ---------------------------------------------------------------------------
// Laws
// ---------------------------------------------------------------------------

proof fn lemma_slug_map_chars(s: Seq<char>)
    ensures
        forall|i: int| 0 <= i < slug_map(s).len() ==> is_slug_char(#[trigger] slug_map(s)[i]),
        slug_map(s).len() == s.len(),
{
}

proof fn lemma_collapse_chars(s: Seq<char>)
    requires
        forall|i: int| 0 <= i < s.len() ==> is_slug_char(#[trigger] s[i]),
    ensures
        forall|i: int|
            0 <= i < collapse_dashes(s).len() ==> is_slug_char(#[trigger] collapse_dashes(s)[i]),
        forall|i: int|
            0 <= i < collapse_dashes(s).len() - 1 ==> !(#[trigger] collapse_dashes(s)[i] == '-'
                && collapse_dashes(s)[i + 1] == '-'),
        collapse_dashes(s).len() > 0 ==> collapse_dashes(s).last() == s.last(),
        collapse_dashes(s).len() <= s.len(),
    decreases s.len(),
{
    if s.len() > 0 {
        lemma_collapse_chars(s.drop_last());
        let r = collapse_dashes(s.drop_last());
        if s.len() >= 2 {
            assert(s.drop_last().last() == s[s.len() - 2]);
        }
        if !(s.last() == '-' && s.len() >= 2 && s[s.len() - 2] == '-') {
            let rp = r.push(s.last());
            assert forall|i: int| 0 <= i < rp.len() - 1 implies !(#[trigger] rp[i] == '-' && rp[i
                + 1] == '-') by {
                if i == rp.len() - 2 {
                    assert(rp[i] == r.last());
                }
            }
        }
    }
}

proof fn lemma_trim_start_props(s: Seq<char>)
    ensures
        trim_dash_start(s).len() > 0 ==> trim_dash_start(s)[0] != '-',
        exists|k: int| 0 <= k <= s.len() && trim_dash_start(s) == s.skip(k),
    decreases s.len(),
{
    if s.len() > 0 && s[0] == '-' {
        lemma_trim_start_props(s.drop_first());
        let k = choose|k: int|
            0 <= k <= s.drop_first().len() && trim_dash_start(s.drop_first())
                == s.drop_first().skip(k);
        assert(s.drop_first().skip(k) =~= s.skip(k + 1));
    } else {
        assert(s.skip(0) =~= s);
    }
}

proof fn lemma_trim_end_props(s: Seq<char>)
    ensures
        trim_dash_end(s).len() > 0 ==> trim_dash_end(s).last() != '-',
        exists|k: int| 0 <= k <= s.len() && trim_dash_end(s) == s.take(k),
    decreases s.len(),
{
    if s.len() > 0 && s.last() == '-' {
        lemma_trim_end_props(s.drop_last());
        let k = choose|k: int|
            0 <= k <= s.drop_last().len() && trim_dash_end(s.drop_last()) == s.drop_last().take(k);
        assert(s.drop_last().take(k) =~= s.take(k));
    } else {
        assert(s.take(s.len() as int) =~= s);
    }
}

/// Every slug that `slugify` produces is made of slug characters, has at most
/// 50 of them, never starts with `-`, and never holds two dashes in a row.
/// When it has at least 2 characters it passes `validate_slug_shape`.
pub proof fn slugify_output_shape(name: Seq<char>)
    ensures
        spec_slugify(name).len() <= 50,
        forall|i: int|
            0 <= i < spec_slugify(name).len() ==> is_slug_char(#[trigger] spec_slugify(name)[i]),
        spec_slugify(name).len() > 0 ==> spec_slugify(name)[0] != '-',
        forall|i: int|
            0 <= i < spec_slugify(name).len() - 1 ==> !(#[trigger] spec_slugify(name)[i] == '-'
                && spec_slugify(name)[i + 1] == '-'),
        spec_slugify(name).len() >= 2 ==> is_valid_slug(spec_slugify(name)),
{
    let m = slug_map(name);
    lemma_slug_map_chars(name);
    lemma_collapse_chars(m);
    let c = collapse_dashes(m);
    lemma_trim_start_props(c);
    let ts = trim_dash_start(c);
    let k1 = choose|k: int| 0 <= k <= c.len() && ts == c.skip(k);
    assert forall|i: int| 0 <= i < ts.len() implies is_slug_char(#[trigger] ts[i]) by {
        assert(ts[i] == c[i + k1]);
    }
    assert forall|i: int| 0 <= i < ts.len() - 1 implies !(#[trigger] ts[i] == '-' && ts[i + 1]
        == '-') by {
        assert(ts[i] == c[i + k1]);
        assert(ts[i + 1] == c[i + 1 + k1]);
    }
    lemma_trim_end_props(ts);
    let t = trim_dash_end(ts);
    let k2 = choose|k: int| 0 <= k <= ts.len() && t == ts.take(k);
    assert forall|i: int| 0 <= i < t.len() implies is_slug_char(#[trigger] t[i]) by {
        assert(t[i] == ts[i]);
    }
    assert forall|i: int| 0 <= i < t.len() - 1 implies !(#[trigger] t[i] == '-' && t[i + 1]
        == '-') by {
        assert(t[i] == ts[i]);
        assert(t[i + 1] == ts[i + 1]);
    }
    if t.len() > 0 {
        assert(t[0] == ts[0]);
    }
    let r = spec_slugify(name);
    assert forall|i: int| 0 <= i < r.len() implies is_slug_char(#[trigger] r[i]) by {
        assert(r[i] == t[i]);
    }
    assert forall|i: int| 0 <= i < r.len() - 1 implies !(#[trigger] r[i] == '-' && r[i + 1]
        == '-') by {
        assert(r[i] == t[i]);
        assert(r[i + 1] == t[i + 1]);
    }
    if r.len() > 0 {
        assert(r[0] == t[0]);
    }
}

/// A well-formed slug (slug characters, at most 50, no dash at either end,
/// no two dashes in a row) is left unchanged by `slugify`.
pub proof fn slugify_fixes_clean_slugs(s: Seq<char>)
    requires
        s.len() <= 50,
        forall|i: int| 0 <= i < s.len() ==> is_slug_char(#[trigger] s[i]),
        s.len() > 0 ==> s[0] != '-' && s.last() != '-',
        forall|i: int| 0 <= i < s.len() - 1 ==> !(#[trigger] s[i] == '-' && s[i + 1] == '-'),
    ensures
        spec_slugify(s) == s,
{
    assert(slug_map(s) =~= s) by {
        assert forall|i: int| 0 <= i < s.len() implies #[trigger] slug_map(s)[i] == s[i] by {
            assert(is_slug_char(s[i]));
        }
    }
    lemma_collapse_identity(s);
    if s.len() > 0 {
        assert(trim_dash_start(s) == s);
        assert(trim_dash_end(s) == s);
    }
}

proof fn lemma_collapse_identity(s: Seq<char>)
    requires
        forall|i: int| 0 <= i < s.len() - 1 ==> !(#[trigger] s[i] == '-' && s[i + 1] == '-'),
    ensures
        collapse_dashes(s) == s,
    decreases s.len(),
{
    if s.len() > 0 {
        let d = s.drop_last();
        assert forall|i: int| 0 <= i < d.len() - 1 implies !(#[trigger] d[i] == '-' && d[i + 1]
            == '-') by {
            assert(d[i] == s[i] && d[i + 1] == s[i + 1]);
        }
        lemma_collapse_identity(d);
        if s.len() >= 2 {
            assert(!(s[s.len() - 2] == '-' && s[s.len() - 1] == '-'));
        }
        assert(d.push(s.last()) =~= s);
    }
}

/// Slugifying a slug again changes nothing, unless the 50-character cut
/// left a dash at its end (which a second pass trims).
pub proof fn slugify_is_idempotent(name: Seq<char>)
    requires
        spec_slugify(name).len() > 0 ==> spec_slugify(name).last() != '-',
    ensures
        spec_slugify(spec_slugify(name)) == spec_slugify(name),
{
    slugify_output_shape(name);
    slugify_fixes_clean_slugs(spec_slugify(name));
}

// ---------------------------------------------------------------------------
// Permissions
// ---------------------------------------------------------------------------

/// Whether a user with `role` may create categories. Administrators always
/// may; posters may when the poster-category gate is on; nobody else.
pub fn can_create_category(role: &str, gate_enabled: bool) -> (r: bool)
    ensures
        r == (role@ == ROLE_ADMINISTRATOR@ || (role@ == ROLE_POSTER@ && gate_enabled)),
{
    if text::str_eq(role, ROLE_ADMINISTRATOR) {
        return true;
    }
    if text::str_eq(role, ROLE_POSTER) && gate_enabled {
        return true;
    }
    false
}

/// Whether the user `user_id` with `role` may edit, delete or change the
/// members of a category owned by `created_by`. Administrators may for any
/// category. Posters may for categories they own, while poster category
/// management is switched on. Categories without an owner are reserved to
/// administrators.
pub fn can_manage_category(
    role: &str,
    user_id: u128,
    created_by: Option<u128>,
    gate_enabled: bool,
) -> (r: bool)
    ensures
        r == (role@ == ROLE_ADMINISTRATOR@ || (role@ == ROLE_POSTER@ && gate_enabled && created_by
            == Some(user_id))),
{
    if text::str_eq(role, ROLE_ADMINISTRATOR) {
        return true;
    }
    if !text::str_eq(role, ROLE_POSTER) || !gate_enabled {
        return false;
    }
    match created_by {
        Some(c) => c == user_id,
        None => false,
    }
}

// ---------------------------------------------------------------------------
// Creating and editing
// ---------------------------------------------------------------------------

/// Longest category name, in characters.
pub const NAME_MAX_CHARS: usize = 80;

/// Body of a category creation.
pub struct CreateCategoryRequest {
    pub name: String,
    pub slug: Option<String>,
    pub ordinal: Option<i32>,
    pub color: Option<String>,
    pub visibility: Option<String>,
}

/// Patch of a category; absent fields are left alone.
pub struct UpdateCategoryRequest {
    pub name: Option<String>,
    pub slug: Option<String>,
    pub ordinal: Option<i32>,
    pub color: Option<String>,
    pub visibility: Option<String>,
}

/// The plain values of a `categories` row.
pub struct CategoryRecord {
    pub id: u128,
    pub name: String,
    pub slug: String,
    pub ordinal: i32,
    pub color: Option<String>,
    pub visibility: String,
    pub created_by: Option<u128>,
}

/// The fields of a category about to be created.
pub struct NewCategory {
    pub name: String,
    pub slug: String,
    pub ordinal: i32,
    pub color: Option<String>,
    pub visibility: String,
}

/// The message of a slug that fails the shape rules.
pub open spec fn slug_message(slug: Seq<char>) -> Seq<char> {
    if !(2 <= slug.len() <= 50) {
        msg_slug_length()
    } else {
        msg_slug_charset()
    }
}

/// The slug a creation asks for: the given one, trimmed, or the one derived
/// from the trimmed name.
pub open spec fn requested_slug(req: CreateCategoryRequest) -> Seq<char> {
    match req.slug {
        Some(s) => text::trim(s@),
        None => spec_slugify(text::trim(req.name@)),
    }
}

/// The first rule a creation breaks, in the order the checks run.
pub open spec fn spec_creation_error(req: CreateCategoryRequest) -> Option<Seq<char>> {
    let name = text::trim(req.name@);
    if name.len() == 0 {
        Some("Name cannot be empty"@)
    } else if name.len() > NAME_MAX_CHARS {
        Some("Name must be at most 80 characters"@)
    } else if !is_valid_slug(requested_slug(req)) {
        match req.slug {
            Some(_) => Some(slug_message(requested_slug(req))),
            None => Some("Could not derive a slug from name. Provide one explicitly."@),
        }
    } else {
        None
    }
}

/// Check the name and slug of a creation and fill in its defaults: the
/// trimmed name, the given or derived slug, ordinal 0, no color for an
/// empty one, and the public tier when no visibility is given (a given one
/// is trimmed; whether it is an allowed tier is checked by the caller).
pub fn prepare_new_category(req: &CreateCategoryRequest) -> (r: Result<NewCategory, AppError>)
    ensures
        match spec_creation_error(*req) {
            Some(m) => r matches Err(e) && e matches AppError::ValidationError(t) && t@ == m,
            None => r matches Ok(c) && {
                &&& c.name@ == text::trim(req.name@)
                &&& c.slug@ == requested_slug(*req)
                &&& c.ordinal == (match req.ordinal {
                    Some(o) => o,
                    None => 0i32,
                })
                &&& c.color == (match req.color {
                    Some(col) => if col@.len() == 0 {
                        None
                    } else {
                        Some(col)
                    },
                    None => None,
                })
                &&& c.visibility@ == (match req.visibility {
                    Some(v) => text::trim(v@),
                    None => VISIBILITY_PUBLIC@,
                })
            },
        },
{
    let name = text::trim_str(req.name.as_str());
    if name.as_str().is_empty() {
        return Err(AppError::ValidationError(text::owned("Name cannot be empty")));
    }
    if text::char_count(name.as_str()) > NAME_MAX_CHARS {
        return Err(AppError::ValidationError(text::owned("Name must be at most 80 characters")));
    }
    let slug = match &req.slug {
        Some(s) => {
            let trimmed = text::trim_str(s.as_str());
            match validate_slug_shape(trimmed.as_str()) {
                Ok(()) => {},
                Err(m) => return Err(AppError::ValidationError(m)),
            }
            trimmed
        },
        None => {
            let derived = slugify(name.as_str());
            match validate_slug_shape(derived.as_str()) {
                Ok(()) => {},
                Err(_) => return Err(
                    AppError::ValidationError(
                        text::owned("Could not derive a slug from name. Provide one explicitly."),
                    ),
                ),
            }
            derived
        },
    };
    let visibility = match &req.visibility {
        Some(v) => text::trim_str(v.as_str()),
        None => text::owned(VISIBILITY_PUBLIC),
    };
    let color = match &req.color {
        Some(c) => if c.as_str().is_empty() {
            None
        } else {
            Some(c.clone())
        },
        None => None,
    };
    let ordinal = match req.ordinal {
        Some(o) => o,
        None => 0,
    };
    Ok(NewCategory { name, slug, ordinal, color, visibility })
}

/// The first rule a patch breaks, in the order the checks run;
/// `visibility_ok` is the verdict on the trimmed visibility (true when the
/// patch sets none).
pub open spec fn spec_patch_error(req: UpdateCategoryRequest, visibility_ok: bool) -> Option<
    Seq<char>,
> {
    if req.slug matches Some(s) && !is_valid_slug(text::trim(s@)) {
        Some(slug_message(text::trim(req.slug->0@)))
    } else if !visibility_ok {
        Some("Invalid visibility '"@ + req.visibility->0@ + "'"@)
    } else if req.name matches Some(n) && text::trim(n@).len() == 0 {
        Some("Name cannot be empty"@)
    } else {
        None
    }
}

/// Check a patch's slug and name.
pub fn check_category_patch(req: &UpdateCategoryRequest, visibility_ok: bool) -> (r: Result<
    (),
    AppError,
>)
    requires
        req.visibility is None ==> visibility_ok,
    ensures
        match spec_patch_error(*req, visibility_ok) {
            Some(m) => r matches Err(e) && e matches AppError::ValidationError(t) && t@ == m,
            None => r is Ok,
        },
{
    if let Some(s) = &req.slug {
        let trimmed = text::trim_str(s.as_str());
        match validate_slug_shape(trimmed.as_str()) {
            Ok(()) => {},
            Err(m) => return Err(AppError::ValidationError(m)),
        }
    }
    if !visibility_ok {
        let mut m = text::owned("Invalid visibility '");
        match &req.visibility {
            Some(v) => m.append(v.as_str()),
            None => {},
        }
        m.append("'");
        return Err(AppError::ValidationError(m));
    }
    if let Some(n) = &req.name {
        let trimmed = text::trim_str(n.as_str());
        if trimmed.as_str().is_empty() {
            return Err(AppError::ValidationError(text::owned("Name cannot be empty")));
        }
    }
    Ok(())
}

/// An optional text trimmed, with empty text counting as absent.
pub open spec fn trimmed_or_none(s: Seq<char>) -> Option<Seq<char>> {
    if text::trim(s).len() == 0 {
        None
    } else {
        Some(text::trim(s))
    }
}

/// Apply a checked patch to the row: name, slug and visibility trimmed,
/// the ordinal as given, and the color trimmed (an empty one clears it).
pub fn apply_category_patch(row: &mut CategoryRecord, req: &UpdateCategoryRequest)
    ensures
        final(row).id == old(row).id,
        final(row).created_by == old(row).created_by,
        final(row).name@ == (match req.name {
            Some(n) => text::trim(n@),
            None => old(row).name@,
        }),
        final(row).slug@ == (match req.slug {
            Some(s) => text::trim(s@),
            None => old(row).slug@,
        }),
        final(row).ordinal == (match req.ordinal {
            Some(o) => o,
            None => old(row).ordinal,
        }),
        (match final(row).color {
            Some(c) => Some(c@),
            None => None,
        }) == (match req.color {
            Some(c) => trimmed_or_none(c@),
            None => match old(row).color {
                Some(c) => Some(c@),
                None => None,
            },
        }),
        final(row).visibility@ == (match req.visibility {
            Some(v) => text::trim(v@),
            None => old(row).visibility@,
        }),
{
    if let Some(n) = &req.name {
        row.name = text::trim_str(n.as_str());
    }
    if let Some(s) = &req.slug {
        row.slug = text::trim_str(s.as_str());
    }
    if let Some(o) = req.ordinal {
        row.ordinal = o;
    }
    if let Some(c) = &req.color {
        let t = text::trim_str(c.as_str());
        row.color = if t.as_str().is_empty() {
            None
        } else {
            Some(t)
        };
    }
    if let Some(v) = &req.visibility {
        row.visibility = text::trim_str(v.as_str());
    }
}

// ---------------------------------------------------------------------------
// Permission errors and members
// ---------------------------------------------------------------------------

/// What a caller wants to do with categories.
#[derive(Debug, PartialEq, Eq, Structural)]
pub enum CategoryAction {
    Create,
    Modify,
    Delete,
    /// Change the member list.
    Manage,
}

pub open spec fn spec_may_create(role: Seq<char>, gate_enabled: bool) -> bool {
    role == ROLE_ADMINISTRATOR@ || (role == ROLE_POSTER@ && gate_enabled)
}

pub open spec fn spec_may_manage(
    role: Seq<char>,
    user_id: u128,
    created_by: Option<u128>,
    gate_enabled: bool,
) -> bool {
    role == ROLE_ADMINISTRATOR@ || (role == ROLE_POSTER@ && gate_enabled && created_by == Some(
        user_id,
    ))
}

pub open spec fn denial_message(action: CategoryAction) -> Seq<char> {
    match action {
        CategoryAction::Create => "Not allowed to create categories"@,
        CategoryAction::Modify => "Not allowed to modify this category"@,
        CategoryAction::Delete => "Not allowed to delete this category"@,
        CategoryAction::Manage => "Not allowed to manage this category"@,
    }
}

/// Refuse an action the caller may not take, with the policy's message.
/// Creation needs the create permission; everything else the manage
/// permission on the category owned by `created_by`.
pub fn require_category_permission(
    action: CategoryAction,
    role: &str,
    user_id: u128,
    created_by: Option<u128>,
    gate_enabled: bool,
) -> (r: Result<(), AppError>)
    ensures
        r is Ok <==> (if action == CategoryAction::Create {
            spec_may_create(role@, gate_enabled)
        } else {
            spec_may_manage(role@, user_id, created_by, gate_enabled)
        }),
        r matches Err(e) ==> e matches AppError::Forbidden(m) && m@ == denial_message(action),
{
    let allowed = match action {
        CategoryAction::Create => can_create_category(role, gate_enabled),
        _ => can_manage_category(role, user_id, created_by, gate_enabled),
    };
    if allowed {
        return Ok(());
    }
    let m = match action {
        CategoryAction::Create => text::owned("Not allowed to create categories"),
        CategoryAction::Modify => text::owned("Not allowed to modify this category"),
        CategoryAction::Delete => text::owned("Not allowed to delete this category"),
        CategoryAction::Manage => text::owned("Not allowed to manage this category"),
    };
    Err(AppError::Forbidden(m))
}

/// Strictly increasing: sorted with no repeats.
pub open spec fn strictly_increasing(s: Seq<u128>) -> bool {
    forall|i: int, j: int| 0 <= i < j < s.len() ==> #[trigger] s[i] < #[trigger] s[j]
}

/// Insert `x` into a strictly increasing list, keeping it so.
fn insert_sorted(v: &mut Vec<u128>, x: u128)
    requires
        strictly_increasing(old(v)@),
    ensures
        strictly_increasing(final(v)@),
        forall|y: u128| #[trigger] final(v)@.contains(y) <==> (old(v)@.contains(y) || y == x),
{
    let mut i: usize = 0;
    while i < v.len() && v[i] < x
        invariant
            i <= v@.len(),
            strictly_increasing(v@),
            forall|k: int| 0 <= k < i ==> #[trigger] v@[k] < x,
        decreases v@.len() - i,
    {
        i = i + 1;
    }
    if i < v.len() && v[i] == x {
        return;
    }
    let ghost before = v@;
    v.insert(i, x);
    proof {
        assert(v@ =~= before.take(i as int).push(x) + before.skip(i as int));
        assert forall|a: int, b: int| 0 <= a < b < v@.len() implies #[trigger] v@[a] < #[trigger] v@[b] by {
            if b < i {
                assert(v@[a] == before[a] && v@[b] == before[b]);
            } else if b == i {
                assert(v@[a] == before[a]);
            } else if a == i {
                assert(v@[b] == before[b - 1]);
                assert(before[b - 1] >= x);
            } else if a < i {
                assert(v@[a] == before[a] && v@[b] == before[b - 1]);
            } else {
                assert(v@[a] == before[a - 1] && v@[b] == before[b - 1]);
            }
        }
        assert forall|y: u128| #[trigger] v@.contains(y) <==> (before.contains(y) || y == x) by {
            if v@.contains(y) {
                let k = choose|k: int| 0 <= k < v@.len() && #[trigger] v@[k] == y;
                if k < i {
                    assert(before[k] == y);
                } else if k > i {
                    assert(before[k - 1] == y);
                }
            }
            if before.contains(y) {
                let k = choose|k: int| 0 <= k < before.len() && #[trigger] before[k] == y;
                if k < i {
                    assert(v@[k] == y);
                } else {
                    assert(v@[k + 1] == y);
                }
            }
            if y == x {
                assert(v@[i as int] == y);
            }
        }
    }
}

/// The member list a replacement asks for: the requested ids in increasing
/// order without repeats. The owner of the category cannot be left out.
pub fn plan_member_list(requested: &Vec<u128>, created_by: Option<u128>) -> (r: Result<
    Vec<u128>,
    AppError,
>)
    ensures
        match created_by {
            Some(c) => r is Ok <==> requested@.contains(c),
            None => r is Ok,
        },
        r matches Err(e) ==> e matches AppError::ValidationError(m) && m@
            == "the category creator cannot be removed"@,
        r matches Ok(v) ==> strictly_increasing(v@) && forall|y: u128| #[trigger] v@.contains(y)
            <==> requested@.contains(y),
{
    let mut want: Vec<u128> = Vec::new();
    let mut i: usize = 0;
    while i < requested.len()
        invariant
            i <= requested@.len(),
            strictly_increasing(want@),
            forall|y: u128| #[trigger] want@.contains(y) <==> requested@.take(i as int).contains(y),
        decreases requested@.len() - i,
    {
        let ghost before = want@;
        let x = requested[i];
        insert_sorted(&mut want, x);
        proof {
            let t0 = requested@.take(i as int);
            let t1 = requested@.take(i + 1);
            assert(t1 =~= t0.push(x));
            assert forall|y: u128| #[trigger] want@.contains(y) <==> t1.contains(y) by {
                assert(before.contains(y) <==> t0.contains(y));
                if t0.contains(y) {
                    let k = choose|k: int| 0 <= k < t0.len() && #[trigger] t0[k] == y;
                    assert(t1[k] == y);
                }
                if y == x {
                    assert(t1[i as int] == y);
                }
                if t1.contains(y) {
                    let k = choose|k: int| 0 <= k < t1.len() && #[trigger] t1[k] == y;
                    if k < i {
                        assert(t0[k] == y);
                    }
                }
            }
        }
        i = i + 1;
    }
    proof {
        assert(requested@.take(i as int) =~= requested@);
    }
    if let Some(c) = created_by {
        assert(want@.contains(c) == requested@.contains(c));
        let mut found = false;
        let mut k: usize = 0;
        while k < want.len()
            invariant
                k <= want@.len(),
                found <==> exists|j: int| 0 <= j < k && #[trigger] want@[j] == c,
            decreases want@.len() - k,
        {
            if want[k] == c {
                found = true;
            }
            k = k + 1;
        }
        if !found {
            return Err(AppError::ValidationError(text::owned("the category creator cannot be removed")));
        }
    }
    Ok(want)
}

/// The owner of a category cannot be removed from its members.
pub fn check_member_removal(created_by: Option<u128>, member_id: u128) -> (r: Result<(), AppError>)
    ensures
        r is Ok <==> created_by != Some(member_id),
        r matches Err(e) ==> e matches AppError::ValidationError(m) && m@
            == "the category creator cannot be removed"@,
{
    if created_by == Some(member_id) {
        return Err(AppError::ValidationError(text::owned("the category creator cannot be removed")));
    }
    Ok(())
}

} // verus!

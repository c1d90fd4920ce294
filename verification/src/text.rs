//! Character and string primitives shared by the validators: ASCII classes,
//! Unicode white space, trimming, substring search, replacement and
//! whitespace collapsing, each with the mathematical definition it meets.
use vstd::prelude::*;
use vstd::string::*;
use vstd::utf8::*;

verus! {

/// Appending one `char` to a `String` appends it to the character sequence.
pub assume_specification[ String::push ](s: &mut String, ch: char)
    ensures
        final(s)@ == old(s)@.push(ch),
;

// ---------------------------------------------------------------------------
// Character classes
// ---------------------------------------------------------------------------

pub open spec fn spec_is_ascii_upper(c: char) -> bool {
    'A' <= c && c <= 'Z'
}

pub open spec fn spec_is_ascii_lower(c: char) -> bool {
    'a' <= c && c <= 'z'
}

pub open spec fn spec_is_ascii_digit(c: char) -> bool {
    '0' <= c && c <= '9'
}

/// ASCII upper-case letters map to their lower-case letter; every other
/// character is unchanged.
pub open spec fn spec_to_ascii_lower(c: char) -> char {
    if spec_is_ascii_upper(c) {
        ((c as u32) + 32) as char
    } else {
        c
    }
}

/// The Unicode `White_Space` property (PropList.txt), which is what
/// `char::is_whitespace` tests.
pub open spec fn spec_is_whitespace(c: char) -> bool {
    let u = c as u32;
    ||| (0x09 <= u && u <= 0x0D)
    ||| u == 0x20
    ||| u == 0x85
    ||| u == 0xA0
    ||| u == 0x1680
    ||| (0x2000 <= u && u <= 0x200A)
    ||| u == 0x2028
    ||| u == 0x2029
    ||| u == 0x202F
    ||| u == 0x205F
    ||| u == 0x3000
}

pub fn is_ascii_upper(c: char) -> (r: bool)
    ensures
        r == spec_is_ascii_upper(c),
{
    'A' <= c && c <= 'Z'
}

pub fn is_ascii_lower(c: char) -> (r: bool)
    ensures
        r == spec_is_ascii_lower(c),
{
    'a' <= c && c <= 'z'
}

pub fn is_ascii_digit(c: char) -> (r: bool)
    ensures
        r == spec_is_ascii_digit(c),
{
    '0' <= c && c <= '9'
}

pub fn to_ascii_lower(c: char) -> (r: char)
    ensures
        r == spec_to_ascii_lower(c),
{
    if 'A' <= c && c <= 'Z' {
        let b: u8 = (c as u8) + 32;
        b as char
    } else {
        c
    }
}

pub fn is_whitespace(c: char) -> (r: bool)
    ensures
        r == spec_is_whitespace(c),
{
    let u: u32 = c as u32;
    (0x09 <= u && u <= 0x0D) || u == 0x20 || u == 0x85 || u == 0xA0 || u == 0x1680 || (0x2000
        <= u && u <= 0x200A) || u == 0x2028 || u == 0x2029 || u == 0x202F || u == 0x205F || u
        == 0x3000
}

// ---------------------------------------------------------------------------
// Conversions between &str, Vec<char> and String
// ---------------------------------------------------------------------------

/// The characters of `s`, in order.
pub fn chars_of(s: &str) -> (v: Vec<char>)
    ensures
        v@ == s@,
{
    let mut v: Vec<char> = Vec::new();
    for c in it: s.chars()
        invariant
            it.seq() == s@,
            v@ == s@.take(it.index() as int),
    {
        v.push(c);
    }
    assert(v@ =~= s@);
    v
}

/// A `String` holding exactly the characters of `v`.
pub fn string_of(v: &[char]) -> (s: String)
    ensures
        s@ == v@,
{
    let mut s = String::new();
    let mut i: usize = 0;
    while i < v.len()
        invariant
            i <= v@.len(),
            s@ == v@.take(i as int),
        decreases v@.len() - i,
    {
        s.push(v[i]);
        assert(v@.take(i + 1) =~= v@.take(i as int).push(v@[i as int]));
        i = i + 1;
    }
    assert(v@.take(i as int) =~= v@);
    s
}

/// A `String` holding the characters of the literal or slice `t`.
pub fn owned(t: &str) -> (s: String)
    ensures
        s@ == t@,
{
    t.to_owned()
}

// ---------------------------------------------------------------------------
// Lengths
// ---------------------------------------------------------------------------

/// Number of bytes of the UTF-8 encoding of `s` (what `str::len` returns).
pub open spec fn utf8_len(s: Seq<char>) -> nat {
    encode_utf8(s).len()
}

pub proof fn lemma_encode_scalar_len(c: char)
    ensures
        1 <= encode_scalar(c as u32).len() <= 4,
{
}

pub proof fn lemma_utf8_len_at_least(s: Seq<char>)
    ensures
        utf8_len(s) >= s.len(),
    decreases s.len(),
{
    if s.len() > 0 {
        lemma_encode_scalar_len(s[0]);
        lemma_utf8_len_at_least(s.drop_first());
    }
}

pub proof fn lemma_utf8_len_at_most(s: Seq<char>)
    ensures
        utf8_len(s) <= 4 * s.len(),
    decreases s.len(),
{
    if s.len() > 0 {
        lemma_encode_scalar_len(s[0]);
        lemma_utf8_len_at_most(s.drop_first());
    }
}

/// Number of characters of `s`; the value fits in `usize`.
pub fn char_count(s: &str) -> (n: usize)
    ensures
        n as nat == s@.len(),
{
    s.unicode_len()
}

// ---------------------------------------------------------------------------
// Substring search
// ---------------------------------------------------------------------------

/// `needle` occurs in `hay` at position `i`.
pub open spec fn occurs_at(hay: Seq<char>, needle: Seq<char>, i: int) -> bool {
    0 <= i && i + needle.len() <= hay.len() && hay.subrange(i, i + needle.len()) == needle
}

/// `needle` is a contiguous substring of `hay` (the empty needle always is).
pub open spec fn seq_contains(hay: Seq<char>, needle: Seq<char>) -> bool {
    exists|i: int| occurs_at(hay, needle, i)
}

/// Whether `needle` occurs at position `i` of `hay`.
pub fn matches_at(hay: &[char], needle: &[char], i: usize) -> (r: bool)
    requires
        i <= hay@.len(),
    ensures
        r == occurs_at(hay@, needle@, i as int),
{
    if needle.len() > hay.len() - i {
        return false;
    }
    let hl = hay.len();
    let mut k: usize = 0;
    while k < needle.len()
        invariant
            hl == hay@.len(),
            i + needle@.len() <= hay@.len(),
            k <= needle@.len(),
            forall|j: int| 0 <= j < k ==> hay@[i + j] == needle@[j],
        decreases needle@.len() - k,
    {
        if hay[i + k] != needle[k] {
            assert(hay@.subrange(i as int, i + needle@.len())[k as int] != needle@[k as int]);
            return false;
        }
        k = k + 1;
    }
    assert(hay@.subrange(i as int, i + needle@.len()) =~= needle@);
    true
}

/// Whether `needle` is a substring of `hay`.
pub fn contains_sub(hay: &[char], needle: &[char]) -> (r: bool)
    ensures
        r == seq_contains(hay@, needle@),
{
    if needle.len() > hay.len() {
        assert forall|i: int| !occurs_at(hay@, needle@, i) by {}
        return false;
    }
    let last = hay.len() - needle.len();
    let mut i: usize = 0;
    loop
        invariant
            last == hay@.len() - needle@.len(),
            i <= last,
            forall|j: int| 0 <= j < i ==> !occurs_at(hay@, needle@, j),
        ensures
            forall|j: int| 0 <= j <= last ==> !occurs_at(hay@, needle@, j),
        decreases last - i,
    {
        if matches_at(hay, needle, i) {
            return true;
        }
        if i == last {
            break;
        }
        i = i + 1;
    }
    assert forall|j: int| !occurs_at(hay@, needle@, j) by {
        if 0 <= j && j <= last {
        }
    }
    false
}

// ---------------------------------------------------------------------------
// Trimming
// ---------------------------------------------------------------------------

/// Drop the leading white space of `s` (`str::trim_start`).
pub open spec fn trim_start(s: Seq<char>) -> Seq<char>
    decreases s.len(),
{
    if s.len() > 0 && spec_is_whitespace(s[0]) {
        trim_start(s.drop_first())
    } else {
        s
    }
}

/// Drop the trailing white space of `s` (`str::trim_end`).
pub open spec fn trim_end(s: Seq<char>) -> Seq<char>
    decreases s.len(),
{
    if s.len() > 0 && spec_is_whitespace(s.last()) {
        trim_end(s.drop_last())
    } else {
        s
    }
}

/// Drop leading and trailing white space of `s` (`str::trim`).
pub open spec fn trim(s: Seq<char>) -> Seq<char> {
    trim_end(trim_start(s))
}

pub proof fn lemma_trim_start_skip(s: Seq<char>, i: int)
    requires
        0 <= i <= s.len(),
        forall|j: int| 0 <= j < i ==> spec_is_whitespace(s[j]),
    ensures
        trim_start(s) == trim_start(s.skip(i)),
    decreases i,
{
    if i > 0 {
        assert(s.skip(1) =~= s.drop_first());
        assert(s.drop_first().skip(i - 1) =~= s.skip(i));
        lemma_trim_start_skip(s.drop_first(), i - 1);
    } else {
        assert(s.skip(0) =~= s);
    }
}

pub proof fn lemma_trim_end_take(s: Seq<char>, i: int)
    requires
        0 <= i <= s.len(),
        forall|j: int| i <= j < s.len() ==> spec_is_whitespace(s[j]),
    ensures
        trim_end(s) == trim_end(s.take(i)),
    decreases s.len() - i,
{
    if i < s.len() {
        assert(s.drop_last().take(i) =~= s.take(i));
        lemma_trim_end_take(s.drop_last(), i);
    } else {
        assert(s.take(i) =~= s);
    }
}

/// Index of the first non-white-space character at or after `from`, or `v.len()`.
fn skip_ws_forward(v: &[char], from: usize) -> (r: usize)
    requires
        from <= v@.len(),
    ensures
        from <= r <= v@.len(),
        forall|j: int| from <= j < r ==> spec_is_whitespace(v@[j]),
        r < v@.len() ==> !spec_is_whitespace(v@[r as int]),
{
    let mut i = from;
    while i < v.len() && is_whitespace(v[i])
        invariant
            from <= i <= v@.len(),
            forall|j: int| from <= j < i ==> spec_is_whitespace(v@[j]),
        decreases v@.len() - i,
    {
        i = i + 1;
    }
    i
}

/// The characters of `s` with leading and trailing white space removed.
pub fn trim_chars(s: &[char]) -> (r: Vec<char>)
    ensures
        r@ == trim(s@),
{
    let a = skip_ws_forward(s, 0);
    proof {
        lemma_trim_start_skip(s@, a as int);
        if a < s@.len() {
            assert(s@.skip(a as int)[0] == s@[a as int]);
        } else {
            assert(s@.skip(a as int).len() == 0);
        }
    }
    let ghost st = s@.skip(a as int);
    assert(trim_start(s@) == st);
    let mut b = s.len();
    while b > a && is_whitespace(s[b - 1])
        invariant
            a <= b <= s@.len(),
            forall|j: int| b <= j < s@.len() ==> spec_is_whitespace(s@[j]),
        decreases b,
    {
        b = b - 1;
    }
    proof {
        let k = b - a;
        assert forall|j: int| k <= j < st.len() implies spec_is_whitespace(st[j]) by {
            assert(st[j] == s@[a + j]);
        }
        lemma_trim_end_take(st, k as int);
        if k > 0 {
            assert(st.take(k as int).last() == s@[b - 1]);
        }
    }
    let mut out: Vec<char> = Vec::new();
    let mut i = a;
    while i < b
        invariant
            a <= i <= b <= s@.len(),
            out@ == s@.subrange(a as int, i as int),
        decreases b - i,
    {
        out.push(s[i]);
        assert(s@.subrange(a as int, i + 1) =~= s@.subrange(a as int, i as int).push(s@[i as int]));
        i = i + 1;
    }
    assert(out@ =~= st.take((b - a) as int));
    out
}

/// `s` with leading and trailing white space removed, as a `String`.
pub fn trim_str(s: &str) -> (r: String)
    ensures
        r@ == trim(s@),
{
    let v = chars_of(s);
    let t = trim_chars(&v);
    string_of(&t)
}

} // verus!

verus! {

// ---------------------------------------------------------------------------
// UTF-8 byte lengths
// ---------------------------------------------------------------------------

/// Number of bytes of the UTF-8 encoding of one character.
pub open spec fn utf8_width(c: char) -> nat {
    encode_scalar(c as u32).len()
}

pub proof fn lemma_utf8_len_concat(a: Seq<char>, b: Seq<char>)
    ensures
        encode_utf8(a + b) == encode_utf8(a) + encode_utf8(b),
    decreases a.len(),
{
    if a.len() == 0 {
        assert(a + b =~= b);
        assert(encode_utf8(a) =~= Seq::<u8>::empty());
        assert(encode_utf8(a) + encode_utf8(b) =~= encode_utf8(b));
    } else {
        assert((a + b).drop_first() =~= a.drop_first() + b);
        assert((a + b)[0] == a[0]);
        lemma_utf8_len_concat(a.drop_first(), b);
        assert(encode_utf8(a + b) =~= encode_scalar(a[0] as u32) + (encode_utf8(a.drop_first())
            + encode_utf8(b)));
    }
}

pub proof fn lemma_utf8_len_push(s: Seq<char>, c: char)
    ensures
        utf8_len(s.push(c)) == utf8_len(s) + utf8_width(c),
{
    lemma_utf8_len_concat(s, seq![c]);
    assert(s.push(c) =~= s + seq![c]);
    assert(seq![c].drop_first() =~= Seq::<char>::empty());
    assert(encode_utf8(seq![c]) =~= encode_scalar(c as u32) + encode_utf8(Seq::<char>::empty()));
}

/// Byte width of `c` in UTF-8.
pub fn char_utf8_width(c: char) -> (w: usize)
    ensures
        w as nat == utf8_width(c),
        1 <= w <= 4,
{
    let u: u32 = c as u32;
    proof {
        broadcast use char_is_scalar;

        assert(is_scalar(c as u32));
    }
    if u <= 0x7F {
        1
    } else if u <= 0x7FF {
        2
    } else if u <= 0xFFFF {
        3
    } else {
        4
    }
}

/// The UTF-8 byte length of `v`, or `cap` when that length is larger than `cap`.
pub fn utf8_len_capped(v: &[char], cap: usize) -> (n: usize)
    ensures
        n as nat == if utf8_len(v@) < cap { utf8_len(v@) } else { cap as nat },
{
    if cap == 0 {
        return 0;
    }
    let mut total: usize = 0;
    let mut i: usize = 0;
    while i < v.len()
        invariant
            i <= v@.len(),
            total as nat == utf8_len(v@.take(i as int)),
            total < cap,
        decreases v@.len() - i,
    {
        let w = char_utf8_width(v[i]);
        proof {
            assert(v@.take(i + 1) =~= v@.take(i as int).push(v@[i as int]));
            lemma_utf8_len_push(v@.take(i as int), v@[i as int]);
        }
        if w >= cap - total {
            proof {
                lemma_utf8_len_concat(v@.take(i + 1), v@.skip(i + 1));
                assert(v@.take(i + 1) + v@.skip(i + 1) =~= v@);
            }
            return cap;
        }
        total = total + w;
        i = i + 1;
    }
    assert(v@.take(i as int) =~= v@);
    total
}

/// Whether two character sequences are equal.
pub fn eq_chars(a: &[char], b: &[char]) -> (r: bool)
    ensures
        r == (a@ == b@),
{
    if a.len() != b.len() {
        return false;
    }
    let mut i: usize = 0;
    while i < a.len()
        invariant
            a@.len() == b@.len(),
            i <= a@.len(),
            forall|j: int| 0 <= j < i ==> a@[j] == b@[j],
        decreases a@.len() - i,
    {
        if a[i] != b[i] {
            return false;
        }
        i = i + 1;
    }
    assert(a@ =~= b@);
    true
}

/// Whether the characters `a` spell the string `b`.
pub fn eq_str(a: &[char], b: &str) -> (r: bool)
    ensures
        r == (a@ == b@),
{
    let bv = chars_of(b);
    eq_chars(a, &bv)
}

// ---------------------------------------------------------------------------
// Prefix up to a separator
// ---------------------------------------------------------------------------

/// The characters of `s` before the first occurrence of `sep` (all of `s`
/// when `sep` does not occur): the first item of `str::split(sep)`.
pub open spec fn before_first(s: Seq<char>, sep: char) -> Seq<char>
    decreases s.len(),
{
    if s.len() == 0 {
        s
    } else if s[0] == sep {
        Seq::empty()
    } else {
        seq![s[0]] + before_first(s.drop_first(), sep)
    }
}

pub proof fn lemma_before_first_prefix(s: Seq<char>, sep: char, i: int)
    requires
        0 <= i <= s.len(),
        forall|j: int| 0 <= j < i ==> s[j] != sep,
    ensures
        before_first(s, sep) == s.take(i) + before_first(s.skip(i), sep),
    decreases i,
{
    if i > 0 {
        lemma_before_first_prefix(s.drop_first(), sep, i - 1);
        assert(s.drop_first().skip(i - 1) =~= s.skip(i));
        assert(s.take(i) =~= seq![s[0]] + s.drop_first().take(i - 1));
    } else {
        assert(s.skip(0) =~= s);
        assert(s.take(0) + before_first(s, sep) =~= before_first(s, sep));
    }
}

/// The characters of `s` before the first `sep`.
pub fn chars_before_first(s: &[char], sep: char) -> (r: Vec<char>)
    ensures
        r@ == before_first(s@, sep),
{
    let mut i: usize = 0;
    while i < s.len() && s[i] != sep
        invariant
            i <= s@.len(),
            forall|j: int| 0 <= j < i ==> s@[j] != sep,
        decreases s@.len() - i,
    {
        i = i + 1;
    }
    proof {
        lemma_before_first_prefix(s@, sep, i as int);
        if i < s@.len() {
            assert(s@.skip(i as int)[0] == sep);
        } else {
            assert(s@.skip(i as int).len() == 0);
        }
    }
    let mut out: Vec<char> = Vec::new();
    let mut k: usize = 0;
    while k < i
        invariant
            k <= i <= s@.len(),
            out@ == s@.take(k as int),
        decreases i - k,
    {
        out.push(s[k]);
        assert(s@.take(k + 1) =~= s@.take(k as int).push(s@[k as int]));
        k = k + 1;
    }
    assert(s@.take(i as int) + Seq::<char>::empty() =~= s@.take(i as int));
    out
}

// ---------------------------------------------------------------------------
// Lower-casing
// ---------------------------------------------------------------------------

/// The Unicode lower-case mapping of `s`, as `str::to_lowercase` computes it.
pub uninterp spec fn unicode_lowercase(s: Seq<char>) -> Seq<char>;

/// Calls `str::to_lowercase` (std). The contract claims only that the result
/// is a function of the input characters, named `unicode_lowercase`; the
/// Unicode case tables themselves are not restated.
#[verifier::external_body]
pub(crate) fn to_lowercase(s: &str) -> (r: String)
    ensures
        r@ == unicode_lowercase(s@),
{
    s.to_lowercase()
}

} // verus!

verus! {

/// Whether two strings hold the same characters.
pub fn str_eq(a: &str, b: &str) -> (r: bool)
    ensures
        r == (a@ == b@),
{
    let av = chars_of(a);
    eq_str(&av, b)
}

} // verus!

verus! {

// ---------------------------------------------------------------------------
// Replacement (`str::replace`)
// ---------------------------------------------------------------------------

/// `s` with every occurrence of `pat` replaced by `rep`, matching left to
/// right without overlap. An empty `pat` matches at every character
/// boundary, the start and the end included.
pub open spec fn replace_all(s: Seq<char>, pat: Seq<char>, rep: Seq<char>) -> Seq<char>
    decreases s.len(),
{
    if pat.len() == 0 {
        if s.len() == 0 {
            rep
        } else {
            rep + seq![s[0]] + replace_all(s.drop_first(), pat, rep)
        }
    } else if s.len() == 0 {
        s
    } else if pat.len() <= s.len() && s.take(pat.len() as int) == pat {
        rep + replace_all(s.skip(pat.len() as int), pat, rep)
    } else {
        seq![s[0]] + replace_all(s.drop_first(), pat, rep)
    }
}

/// Replacing a non-empty pattern that does not occur changes nothing.
pub proof fn lemma_replace_absent(s: Seq<char>, pat: Seq<char>, rep: Seq<char>)
    requires
        pat.len() > 0,
        !seq_contains(s, pat),
    ensures
        replace_all(s, pat, rep) == s,
    decreases s.len(),
{
    if s.len() > 0 {
        if pat.len() <= s.len() && s.take(pat.len() as int) == pat {
            assert(s.subrange(0, pat.len() as int) =~= s.take(pat.len() as int));
            assert(occurs_at(s, pat, 0));
        }
        assert forall|i: int| !occurs_at(s.drop_first(), pat, i) by {
            if occurs_at(s.drop_first(), pat, i) {
                assert(s.drop_first().subrange(i, i + pat.len()) =~= s.subrange(i + 1, i + 1 + pat.len()));
                assert(occurs_at(s, pat, i + 1));
            }
        }
        lemma_replace_absent(s.drop_first(), pat, rep);
        assert(seq![s[0]] + s.drop_first() =~= s);
    }
}

/// Characters `v` with every occurrence of `pat` replaced by `rep`.
pub fn replace_chars(v: &[char], pat: &[char], rep: &[char]) -> (r: Vec<char>)
    ensures
        r@ == replace_all(v@, pat@, rep@),
{
    let mut out: Vec<char> = Vec::new();
    let mut i: usize = 0;
    assert(v@.skip(0) =~= v@);
    while i < v.len()
        invariant
            i <= v@.len(),
            out@ + replace_all(v@.skip(i as int), pat@, rep@) == replace_all(v@, pat@, rep@),
        decreases v@.len() - i,
    {
        let ghost rest = v@.skip(i as int);
        if pat.len() > 0 && matches_at(v, pat, i) {
            proof {
                assert(rest.take(pat@.len() as int) =~= v@.subrange(i as int, i + pat@.len()));
                assert(rest.skip(pat@.len() as int) =~= v@.skip(i + pat@.len()));
            }
            let ghost before = out@;
            append_chars(&mut out, rep);
            assert(before + (rep@ + replace_all(v@.skip(i + pat@.len()), pat@, rep@)) =~= out@
                + replace_all(v@.skip(i + pat@.len()), pat@, rep@));
            i = i + pat.len();
        } else {
            let ghost before = out@;
            if pat.len() == 0 {
                append_chars(&mut out, rep);
            }
            out.push(v[i]);
            proof {
                assert(rest.drop_first() =~= v@.skip(i + 1));
                assert(rest[0] == v@[i as int]);
                if pat@.len() > 0 && pat@.len() <= rest.len() {
                    assert(rest.take(pat@.len() as int) =~= v@.subrange(i as int, i + pat@.len()));
                }
                if pat@.len() == 0 {
                    assert(before + (rep@ + seq![v@[i as int]] + replace_all(v@.skip(i + 1), pat@, rep@))
                        =~= out@ + replace_all(v@.skip(i + 1), pat@, rep@));
                } else {
                    assert(before + (seq![v@[i as int]] + replace_all(v@.skip(i + 1), pat@, rep@))
                        =~= out@ + replace_all(v@.skip(i + 1), pat@, rep@));
                }
            }
            i = i + 1;
        }
    }
    let ghost before = out@;
    if pat.len() == 0 {
        append_chars(&mut out, rep);
    }
    proof {
        assert(v@.skip(i as int) =~= Seq::<char>::empty());
        if pat@.len() == 0 {
            assert(before + rep@ =~= out@);
        } else {
            assert(before + Seq::<char>::empty() =~= out@);
        }
    }
    out
}

/// Append the characters `w` to `out`.
pub fn append_chars(out: &mut Vec<char>, w: &[char])
    ensures
        final(out)@ == old(out)@ + w@,
{
    let ghost o = out@;
    let mut k: usize = 0;
    while k < w.len()
        invariant
            k <= w@.len(),
            out@ == o + w@.take(k as int),
        decreases w@.len() - k,
    {
        out.push(w[k]);
        assert(w@.take(k + 1) =~= w@.take(k as int).push(w@[k as int]));
        k = k + 1;
    }
    assert(w@.take(k as int) =~= w@);
}

// ---------------------------------------------------------------------------
// Words (`str::split_whitespace`) and joining
// ---------------------------------------------------------------------------

/// The maximal runs of non-white-space characters of `s`, in order.
pub open spec fn words(s: Seq<char>) -> Seq<Seq<char>>
    decreases s.len(),
{
    if s.len() == 0 {
        Seq::empty()
    } else {
        let prev = words(s.drop_last());
        if spec_is_whitespace(s.last()) {
            prev
        } else if s.len() == 1 || spec_is_whitespace(s[s.len() - 2]) {
            prev.push(seq![s.last()])
        } else {
            prev.drop_last().push(prev.last().push(s.last()))
        }
    }
}

/// The words of `list` separated by `sep`.
pub open spec fn join(list: Seq<Seq<char>>, sep: Seq<char>) -> Seq<char>
    decreases list.len(),
{
    if list.len() == 0 {
        Seq::empty()
    } else if list.len() == 1 {
        list[0]
    } else {
        join(list.drop_last(), sep) + sep + list.last()
    }
}

/// The character views of a list of strings.
pub open spec fn views(v: Seq<String>) -> Seq<Seq<char>> {
    v.map_values(|s: String| s@)
}

/// The strings of `parts` separated by `sep` (`parts.join(sep)`).
pub fn join_strings(parts: &Vec<String>, sep: &str) -> (r: String)
    ensures
        r@ == join(views(parts@), sep@),
{
    let mut out = String::new();
    let mut i: usize = 0;
    while i < parts.len()
        invariant
            i <= parts@.len(),
            out@ == join(views(parts@.take(i as int)), sep@),
        decreases parts@.len() - i,
    {
        let ghost before = views(parts@.take(i as int));
        let ghost after = views(parts@.take(i + 1));
        assert(after =~= before.push(parts@[i as int]@));
        if i > 0 {
            out.append(sep);
        }
        out.append(parts[i].as_str());
        assert(after.drop_last() =~= before);
        i = i + 1;
    }
    assert(parts@.take(i as int) =~= parts@);
    out
}

/// `s` with its words separated by single spaces and no white space at
/// either end: `split_whitespace().collect::<Vec<_>>().join(" ")`.
pub open spec fn collapse_whitespace(s: Seq<char>) -> Seq<char> {
    join(words(s), seq![' '])
}

pub proof fn lemma_words_extend(s: Seq<char>)
    requires
        s.len() >= 2,
        !spec_is_whitespace(s.last()),
        !spec_is_whitespace(s[s.len() - 2]),
    ensures
        words(s.drop_last()).len() > 0,
{
    assert(s.drop_last().last() == s[s.len() - 2]);
}

/// Collapse the white space of `v`: words separated by single spaces.
pub fn collapse_whitespace_chars(v: &[char]) -> (r: Vec<char>)
    ensures
        r@ == collapse_whitespace(v@),
{
    let mut out: Vec<char> = Vec::new();
    let mut nwords: usize = 0;
    let mut i: usize = 0;
    while i < v.len()
        invariant
            i <= v@.len(),
            out@ == join(words(v@.take(i as int)), seq![' ']),
            nwords as nat == words(v@.take(i as int)).len(),
            nwords <= i,
        decreases v@.len() - i,
    {
        let c = v[i];
        let ghost pre = v@.take(i as int);
        let ghost cur = v@.take(i + 1);
        assert(cur.drop_last() =~= pre);
        assert(cur.last() == c);
        if is_whitespace(c) {
        } else if i == 0 || is_whitespace(v[i - 1]) {
            proof {
                if i > 0 {
                    assert(cur[cur.len() - 2] == v@[i - 1]);
                }
                let ws = words(pre);
                assert(words(cur) == ws.push(seq![c]));
                if ws.len() == 0 {
                    assert(join(ws.push(seq![c]), seq![' ']) =~= seq![c]);
                } else {
                    assert(ws.push(seq![c]).drop_last() =~= ws);
                }
            }
            if nwords > 0 {
                out.push(' ');
            }
            out.push(c);
            nwords = nwords + 1;
            proof {
                let ws = words(pre);
                if ws.len() > 0 {
                    assert(join(ws.push(seq![c]), seq![' ']) =~= join(ws, seq![' ']) + seq![' ']
                        + seq![c]);
                }
            }
            assert(out@ =~= join(words(cur), seq![' ']));
        } else {
            proof {
                assert(cur[cur.len() - 2] == v@[i - 1]);
                assert(pre.last() == v@[i - 1]);
                lemma_words_extend(cur);
                let ws = words(pre);
                let ws2 = ws.drop_last().push(ws.last().push(c));
                assert(words(cur) == ws2);
                if ws.len() == 1 {
                    assert(join(ws2, seq![' ']) =~= ws.last().push(c));
                    assert(join(ws, seq![' ']) == ws[0]);
                } else {
                    assert(ws2.drop_last() =~= ws.drop_last());
                    assert(join(ws2, seq![' ']) =~= join(ws, seq![' ']).push(c));
                }
            }
            out.push(c);
        }
        i = i + 1;
    }
    assert(v@.take(i as int) =~= v@);
    out
}

/// The character views of a list of character vectors.
pub open spec fn vec_views(v: Seq<Vec<char>>) -> Seq<Seq<char>> {
    v.map_values(|w: Vec<char>| w@)
}

/// The white-space separated words of `s` (`str::split_whitespace`).
pub fn split_words(s: &str) -> (r: Vec<String>)
    ensures
        views(r@) == words(s@),
{
    let v = chars_of(s);
    let mut ws: Vec<Vec<char>> = Vec::new();
    let mut i: usize = 0;
    proof {
        assert(vec_views(ws@) =~= words(v@.take(0)));
    }
    while i < v.len()
        invariant
            i <= v@.len(),
            vec_views(ws@) == words(v@.take(i as int)),
        decreases v@.len() - i,
    {
        let c = v[i];
        let ghost pre = v@.take(i as int);
        let ghost cur = v@.take(i + 1);
        let ghost before = vec_views(ws@);
        assert(cur.drop_last() =~= pre);
        assert(cur.last() == c);
        if is_whitespace(c) {
        } else if i == 0 || is_whitespace(v[i - 1]) {
            proof {
                if i > 0 {
                    assert(cur[cur.len() - 2] == v@[i - 1]);
                }
            }
            let mut w: Vec<char> = Vec::new();
            w.push(c);
            ws.push(w);
            proof {
                assert(w@ =~= seq![c]);
                assert(vec_views(ws@) =~= before.push(seq![c]));
            }
        } else {
            proof {
                assert(cur[cur.len() - 2] == v@[i - 1]);
                assert(pre.last() == v@[i - 1]);
                lemma_words_extend(cur);
            }
            let mut last = ws.pop().unwrap();
            let ghost lv = last@;
            last.push(c);
            ws.push(last);
            proof {
                assert(lv == before.last());
                assert(vec_views(ws@) =~= before.drop_last().push(before.last().push(c)));
            }
        }
        i = i + 1;
    }
    assert(v@.take(i as int) =~= v@);
    let mut out: Vec<String> = Vec::new();
    let mut k: usize = 0;
    while k < ws.len()
        invariant
            k <= ws@.len(),
            vec_views(ws@) == words(s@),
            views(out@) == vec_views(ws@).take(k as int),
        decreases ws@.len() - k,
    {
        let w = string_of(ws[k].as_slice());
        let ghost before = views(out@);
        out.push(w);
        assert(views(out@) =~= before.push(ws@[k as int]@));
        assert(vec_views(ws@).take(k + 1) =~= vec_views(ws@).take(k as int).push(ws@[k as int]@));
        k = k + 1;
    }
    assert(vec_views(ws@).take(k as int) =~= vec_views(ws@));
    out
}

// ---------------------------------------------------------------------------
// Decimal rendering of integers
// ---------------------------------------------------------------------------

/// The decimal digits of `n`, most significant first, without leading zeros
/// ("0" for zero).
pub open spec fn decimal(n: nat) -> Seq<char>
    decreases n,
{
    if n < 10 {
        seq![digit_char(n)]
    } else {
        decimal(n / 10).push(digit_char(n % 10))
    }
}

pub open spec fn digit_char(d: nat) -> char {
    (('0' as u32) + d) as char
}

/// The decimal rendering of `n`, as `usize::to_string` produces it.
pub fn decimal_string(n: usize) -> (s: String)
    ensures
        s@ == decimal(n as nat),
    decreases n,
{
    let d: u8 = (n % 10) as u8;
    let c: char = (48u8 + d) as char;
    assert(c == digit_char((n % 10) as nat));
    if n < 10 {
        let mut s = String::new();
        s.push(c);
        assert(s@ =~= seq![c]);
        s
    } else {
        let mut s = decimal_string(n / 10);
        s.push(c);
        s
    }
}

} // verus!

verus! {

/// Number of words (maximal runs of non-white-space characters) of `v`.
pub fn count_words(v: &[char]) -> (n: usize)
    ensures
        n as nat == words(v@).len(),
{
    let mut n: usize = 0;
    let mut i: usize = 0;
    while i < v.len()
        invariant
            i <= v@.len(),
            n as nat == words(v@.take(i as int)).len(),
            n <= i,
        decreases v@.len() - i,
    {
        let c = v[i];
        let ghost pre = v@.take(i as int);
        let ghost cur = v@.take(i + 1);
        assert(cur.drop_last() =~= pre);
        if i > 0 {
            assert(cur[cur.len() - 2] == v@[i - 1]);
        }
        if !is_whitespace(c) {
            if i == 0 || is_whitespace(v[i - 1]) {
                n = n + 1;
            } else {
                proof {
                    assert(pre.last() == v@[i - 1]);
                    lemma_words_extend(cur);
                }
            }
        }
        i = i + 1;
    }
    assert(v@.take(i as int) =~= v@);
    n
}

/// `v` without its trailing white space.
pub fn trim_end_chars(v: &[char]) -> (r: Vec<char>)
    ensures
        r@ == trim_end(v@),
{
    let mut b = v.len();
    while b > 0 && is_whitespace(v[b - 1])
        invariant
            b <= v@.len(),
            forall|j: int| b <= j < v@.len() ==> spec_is_whitespace(v@[j]),
        decreases b,
    {
        b = b - 1;
    }
    proof {
        lemma_trim_end_take(v@, b as int);
        if b > 0 {
            assert(v@.take(b as int).last() == v@[b - 1]);
        }
    }
    let mut out: Vec<char> = Vec::new();
    let mut i: usize = 0;
    while i < b
        invariant
            i <= b <= v@.len(),
            out@ == v@.take(i as int),
        decreases b - i,
    {
        out.push(v[i]);
        assert(v@.take(i + 1) =~= v@.take(i as int).push(v@[i as int]));
        i = i + 1;
    }
    out
}

/// The first `n` characters of `v` (all of them when there are fewer).
pub fn take_chars(v: &[char], n: usize) -> (r: Vec<char>)
    ensures
        r@ == (if v@.len() <= n { v@ } else { v@.take(n as int) }),
{
    let end = if v.len() <= n {
        v.len()
    } else {
        n
    };
    let mut out: Vec<char> = Vec::new();
    let mut i: usize = 0;
    while i < end
        invariant
            i <= end <= v@.len(),
            out@ == v@.take(i as int),
        decreases end - i,
    {
        out.push(v[i]);
        assert(v@.take(i + 1) =~= v@.take(i as int).push(v@[i as int]));
        i = i + 1;
    }
    assert(v@.take(v@.len() as int) =~= v@);
    out
}

} // verus!

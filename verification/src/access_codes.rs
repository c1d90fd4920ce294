//! Access codes: the upload form an administrator fills in, its
//! validation, the expiry date it accepts, the templates personalised with
//! the code, and the bookkeeping of a code's use.
use vstd::prelude::*;
use vstd::utf8::{decode_utf8, encode_utf8, valid_utf8};
use crate::crypto;
use crate::errors::AppError;
use crate::paging::{self, Instant};
use crate::text;
use chrono::Datelike;

verus! {

/// The text that the uploaded templates carry where the code goes. The
/// application's sources name no placeholder text (they replace the empty
/// text, which puts the code between every two characters), so this crate
/// fixes its own: `{{ACCESS_CODE}}`; templates must carry exactly this.
pub const TEMPLATE_PLACEHOLDER: &'static str = "{{ACCESS_CODE}}";

/// File name offered for the document when the code sets none.
pub const DEFAULT_DOWNLOAD_NAME: &'static str = "Grant_DeFayette_Document";

/// Whether `s` starts with `prefix`.
pub open spec fn starts_with(s: Seq<char>, prefix: Seq<char>) -> bool {
    s.len() >= prefix.len() && s.take(prefix.len() as int) == prefix
}

fn prefixed(prefix: &str, detail: &str) -> (r: String)
    ensures
        r@ == prefix@ + detail@,
{
    let mut m = text::owned(prefix);
    m.append(detail);
    m
}

proof fn lemma_prefixed_starts(prefix: Seq<char>, detail: Seq<char>)
    ensures
        starts_with(prefix + detail, prefix),
{
    assert((prefix + detail).take(prefix.len() as int) =~= prefix);
}

// ---------------------------------------------------------------------------
// Templates
// ---------------------------------------------------------------------------

/// The HTML template personalised with `access_code`.
pub open spec fn spec_processed_html(html: Seq<u8>, access_code: Seq<char>) -> Seq<u8> {
    encode_utf8(text::replace_all(decode_utf8(html), TEMPLATE_PLACEHOLDER@, access_code))
}

/// A template that does not hold the placeholder comes back as it was.
pub proof fn template_without_placeholder_is_unchanged(html: Seq<u8>, access_code: Seq<char>)
    requires
        valid_utf8(html),
        !text::seq_contains(decode_utf8(html), TEMPLATE_PLACEHOLDER@),
    ensures
        spec_processed_html(html, access_code) == html,
{
    reveal_strlit("{{ACCESS_CODE}}");
    text::lemma_replace_absent(decode_utf8(html), TEMPLATE_PLACEHOLDER@, access_code);
    vstd::utf8::decode_utf8_encode_utf8(html);
}

/// Put the access code into an uploaded HTML template in place of the
/// placeholder. Refused when the file is not UTF-8.
pub fn process_html_template(html_content: &[u8], access_code: &str) -> (r: Result<
    Vec<u8>,
    AppError,
>)
    ensures
        r is Ok <==> valid_utf8(html_content@),
        r matches Ok(b) ==> b@ == spec_processed_html(html_content@, access_code@),
        r matches Err(e) ==> e matches AppError::ValidationError(m) && starts_with(
            m@,
            "Invalid UTF-8 in HTML file: "@,
        ),
{
    let bytes = vstd::slice::slice_to_vec(html_content);
    match crypto::string_from_utf8(bytes) {
        Err(e) => {
            let m = prefixed("Invalid UTF-8 in HTML file: ", e.as_str());
            proof {
                lemma_prefixed_starts("Invalid UTF-8 in HTML file: "@, e@);
            }
            Err(AppError::ValidationError(m))
        },
        Ok(s) => {
            let chars = text::chars_of(s.as_str());
            let pat = text::chars_of(TEMPLATE_PLACEHOLDER);
            let code = text::chars_of(access_code);
            let out = text::replace_chars(&chars, &pat, &code);
            let out_s = text::string_of(&out);
            Ok(crypto::utf8_bytes(out_s.as_str()))
        },
    }
}

// ---------------------------------------------------------------------------
// The upload form
// ---------------------------------------------------------------------------

/// How a multipart field of the upload form is read.
#[derive(Debug, PartialEq, Eq, Structural)]
pub enum FieldKind {
    Text,
    File,
    /// A field the form does not know; it is skipped.
    Unknown,
}

pub open spec fn spec_field_kind(name: Seq<char>) -> FieldKind {
    if name == "code"@ || name == "name"@ || name == "description"@ || name == "download_filename"@
        || name == "expires_at"@ {
        FieldKind::Text
    } else if name == "index_html"@ || name == "document_docx"@ {
        FieldKind::File
    } else {
        FieldKind::Unknown
    }
}

/// How the field called `name` is read.
pub fn field_kind(name: &str) -> (r: FieldKind)
    ensures
        r == spec_field_kind(name@),
{
    if text::str_eq(name, "code") || text::str_eq(name, "name") || text::str_eq(name, "description")
        || text::str_eq(name, "download_filename") || text::str_eq(name, "expires_at") {
        FieldKind::Text
    } else if text::str_eq(name, "index_html") || text::str_eq(name, "document_docx") {
        FieldKind::File
    } else {
        FieldKind::Unknown
    }
}

/// The fields of an access-code upload, as read so far.
pub struct AccessCodeForm {
    pub code: String,
    pub name: String,
    pub description: Option<String>,
    pub download_filename: Option<String>,
    pub expires_at: Option<String>,
    pub index_html: Option<Vec<u8>>,
    pub document_docx: Option<Vec<u8>>,
}

/// An empty optional text counts as absent.
pub open spec fn non_empty(text: String) -> Option<String> {
    if text@.len() == 0 {
        None
    } else {
        Some(text)
    }
}

/// The form after the text field `name` was read as `value`.
pub open spec fn spec_with_text(f: AccessCodeForm, name: Seq<char>, value: String) -> AccessCodeForm {
    if name == "code"@ {
        AccessCodeForm { code: value, ..f }
    } else if name == "name"@ {
        AccessCodeForm { name: value, ..f }
    } else if name == "description"@ {
        AccessCodeForm { description: non_empty(value), ..f }
    } else if name == "download_filename"@ {
        AccessCodeForm { download_filename: non_empty(value), ..f }
    } else if name == "expires_at"@ {
        AccessCodeForm { expires_at: non_empty(value), ..f }
    } else {
        f
    }
}

/// The form after the file field `name` was read as `data`. An empty file
/// leaves the field as it was.
pub open spec fn spec_with_file(f: AccessCodeForm, name: Seq<char>, data: Vec<u8>) -> AccessCodeForm {
    if data@.len() == 0 {
        f
    } else if name == "index_html"@ {
        AccessCodeForm { index_html: Some(data), ..f }
    } else if name == "document_docx"@ {
        AccessCodeForm { document_docx: Some(data), ..f }
    } else {
        f
    }
}

pub open spec fn is_code_char(c: char) -> bool {
    text::spec_is_ascii_upper(c) || text::spec_is_ascii_lower(c) || text::spec_is_ascii_digit(c) || c
        == '-'
}

pub open spec fn is_filename_char(c: char) -> bool {
    is_code_char(c) || c == '_'
}

/// The first rule the form breaks, in the order the checks run; `None`
/// when the form is complete and well formed.
pub open spec fn spec_form_error(f: AccessCodeForm) -> Option<Seq<char>> {
    if text::trim(f.code@).len() == 0 {
        Some("Access code cannot be empty"@)
    } else if !(forall|i: int| 0 <= i < f.code@.len() ==> is_code_char(#[trigger] f.code@[i])) {
        Some("Access code must contain only alphanumeric characters or hyphens"@)
    } else if text::trim(f.name@).len() == 0 {
        Some("Name cannot be empty"@)
    } else if f.download_filename matches Some(n) && !(forall|i: int|
        0 <= i < n@.len() ==> is_filename_char(#[trigger] n@[i])) {
        Some(
            "Download filename must contain only alphanumeric characters, hyphens, and underscores"@,
        )
    } else if f.index_html is None || f.document_docx is None {
        Some("Both index.html and Document.docx files are required"@)
    } else {
        None
    }
}

fn all_chars(v: &[char], allow_underscore: bool) -> (r: bool)
    ensures
        r == (forall|i: int|
            0 <= i < v@.len() ==> (if allow_underscore {
                is_filename_char(#[trigger] v@[i])
            } else {
                is_code_char(v@[i])
            })),
{
    let mut i: usize = 0;
    while i < v.len()
        invariant
            i <= v@.len(),
            forall|j: int|
                0 <= j < i ==> (if allow_underscore {
                    is_filename_char(#[trigger] v@[j])
                } else {
                    is_code_char(v@[j])
                }),
        decreases v@.len() - i,
    {
        let c = v[i];
        let ok = text::is_ascii_upper(c) || text::is_ascii_lower(c) || text::is_ascii_digit(c) || c
            == '-' || (allow_underscore && c == '_');
        if !ok {
            return false;
        }
        i = i + 1;
    }
    true
}

/// A form that passes the checks has a non-blank code made of letters,
/// digits and hyphens, a non-blank name, a download name (when given) made
/// of letters, digits, hyphens and underscores, and both files: the HTML
/// page and the document. A form missing either file is refused with the
/// files message.
pub proof fn accepted_form_is_complete(f: AccessCodeForm)
    ensures
        spec_form_error(f) is None ==> {
            &&& text::trim(f.code@).len() > 0
            &&& forall|i: int| 0 <= i < f.code@.len() ==> is_code_char(#[trigger] f.code@[i])
            &&& text::trim(f.name@).len() > 0
            &&& (f.download_filename matches Some(n) ==> forall|i: int|
                0 <= i < n@.len() ==> is_filename_char(#[trigger] n@[i]))
            &&& f.index_html is Some
            &&& f.document_docx is Some
        },
        (f.index_html is None || f.document_docx is None) ==> (spec_form_error(f) is Some),
{
}

impl AccessCodeForm {
    /// The form before any field was read.
    pub fn new() -> (f: AccessCodeForm)
        ensures
            f.code@.len() == 0,
            f.name@.len() == 0,
            f.description is None,
            f.download_filename is None,
            f.expires_at is None,
            f.index_html is None,
            f.document_docx is None,
    {
        AccessCodeForm {
            code: String::new(),
            name: String::new(),
            description: None,
            download_filename: None,
            expires_at: None,
            index_html: None,
            document_docx: None,
        }
    }

    /// Record the text field `name` as read. A later field of the same name
    /// replaces an earlier one; the optional fields treat empty text as
    /// absent.
    pub fn record_text(&mut self, name: &str, value: String)
        ensures
            *final(self) == spec_with_text(*old(self), name@, value),
    {
        if text::str_eq(name, "code") {
            self.code = value;
        } else if text::str_eq(name, "name") {
            self.name = value;
        } else if text::str_eq(name, "description") {
            self.description = if value.as_str().is_empty() { None } else { Some(value) };
        } else if text::str_eq(name, "download_filename") {
            self.download_filename = if value.as_str().is_empty() { None } else { Some(value) };
        } else if text::str_eq(name, "expires_at") {
            self.expires_at = if value.as_str().is_empty() { None } else { Some(value) };
        }
    }

    /// Record the file field `name` as read. An empty upload is ignored.
    pub fn record_file(&mut self, name: &str, data: Vec<u8>)
        ensures
            *final(self) == spec_with_file(*old(self), name@, data),
    {
        if data.len() == 0 {
            return;
        }
        if text::str_eq(name, "index_html") {
            self.index_html = Some(data);
        } else if text::str_eq(name, "document_docx") {
            self.document_docx = Some(data);
        }
    }

    /// Check the form: the first broken rule as a validation error.
    pub fn validate(&self) -> (r: Result<(), AppError>)
        ensures
            match spec_form_error(*self) {
                None => r is Ok,
                Some(m) => r matches Err(e) && e matches AppError::ValidationError(t) && t@ == m,
            },
            r is Ok ==> (self.index_html is Some && self.document_docx is Some),
            r is Ok ==> text::trim(self.code@).len() > 0 && text::trim(self.name@).len() > 0,
    {
        let code = text::chars_of(self.code.as_str());
        let trimmed = text::trim_chars(&code);
        if trimmed.len() == 0 {
            return Err(AppError::ValidationError(text::owned("Access code cannot be empty")));
        }
        if !all_chars(&code, false) {
            return Err(
                AppError::ValidationError(
                    text::owned("Access code must contain only alphanumeric characters or hyphens"),
                ),
            );
        }
        let name = text::chars_of(self.name.as_str());
        let trimmed_name = text::trim_chars(&name);
        if trimmed_name.len() == 0 {
            return Err(AppError::ValidationError(text::owned("Name cannot be empty")));
        }
        if let Some(f) = &self.download_filename {
            let fc = text::chars_of(f.as_str());
            if !all_chars(&fc, true) {
                return Err(
                    AppError::ValidationError(
                        text::owned(
                            "Download filename must contain only alphanumeric characters, hyphens, and underscores",
                        ),
                    ),
                );
            }
        }
        if self.index_html.is_none() || self.document_docx.is_none() {
            return Err(
                AppError::ValidationError(
                    text::owned("Both index.html and Document.docx files are required"),
                ),
            );
        }
        Ok(())
    }
}

/// Refuse a code that is already stored (`exists`, from the lookup by code).
pub fn check_code_is_new(exists: bool) -> (r: Result<(), AppError>)
    ensures
        r is Err <==> exists,
        r matches Err(e) ==> e matches AppError::ValidationError(m) && m@
            == "Access code already exists"@,
{
    if exists {
        Err(AppError::ValidationError(text::owned("Access code already exists")))
    } else {
        Ok(())
    }
}

/// Object name of the personalised page under the code's prefix.
pub const INDEX_OBJECT: &'static str = "index.html";

/// Object name of the personalised document under the code's prefix.
pub const DOCUMENT_OBJECT: &'static str = "Document.docx";

/// The uploaded objects to delete once the row insert has run: none when it
/// succeeded; both the page and the document when it failed, so that no
/// object is left without its row.
pub fn objects_to_remove(insert_ok: bool) -> (r: Vec<String>)
    ensures
        insert_ok ==> r@.len() == 0,
        !insert_ok ==> text::views(r@) == seq![INDEX_OBJECT@, DOCUMENT_OBJECT@],
{
    let mut r: Vec<String> = Vec::new();
    if !insert_ok {
        r.push(text::owned(INDEX_OBJECT));
        r.push(text::owned(DOCUMENT_OBJECT));
        assert(text::views(r@) =~= seq![INDEX_OBJECT@, DOCUMENT_OBJECT@]);
    }
    r
}

// ---------------------------------------------------------------------------
// Expiry
// ---------------------------------------------------------------------------

/// What `chrono::NaiveDate::parse_from_str` gives for a text and a format:
/// the year, month and day, or `None` when the text does not match.
pub uninterp spec fn naive_date_parse(s: Seq<char>, fmt: Seq<char>) -> Option<(i32, u32, u32)>;

/// The seconds since the epoch of a UTC calendar date and time of day, as
/// chrono computes them; `None` for a date or time that does not exist.
pub uninterp spec fn utc_timestamp(y: i32, mo: u32, d: u32, h: u32, mi: u32, s: u32) -> Option<i64>;

/// Calls `chrono::NaiveDate::parse_from_str` and reads the date's year,
/// month and day. The result is named.
#[verifier::external_body]
fn parse_naive_date(s: &str, fmt: &str) -> (r: Option<(i32, u32, u32)>)
    ensures
        r == naive_date_parse(s@, fmt@),
{
    chrono::NaiveDate::parse_from_str(s, fmt).ok().map(|d| (d.year(), d.month(), d.day()))
}

/// Calls `NaiveDate::from_ymd_opt(..).and_hms_opt(..)` and reads the UTC
/// timestamp in seconds. The result is named.
#[verifier::external_body]
fn utc_seconds(y: i32, mo: u32, d: u32, h: u32, mi: u32, s: u32) -> (r: Option<i64>)
    ensures
        r == utc_timestamp(y, mo, d, h, mi, s),
{
    chrono::NaiveDate::from_ymd_opt(y, mo, d).and_then(|date| date.and_hms_opt(h, mi, s)).map(
        |t| t.and_utc().timestamp(),
    )
}

/// The expiry an uploaded date text stands for: a `YYYY-MM-DD` date means
/// its last second (23:59:59 UTC); otherwise an RFC 3339 date-time is taken
/// as it is.
pub open spec fn spec_parse_expiry(s: Seq<char>) -> Result<Instant, Seq<char>> {
    match naive_date_parse(s, "%Y-%m-%d"@) {
        Some((y, mo, d)) => match utc_timestamp(y, mo, d, 23, 59, 59) {
            Some(t) => Ok((t, 0u32, 0i32)),
            None => Err("Invalid date - cannot set time"@),
        },
        None => match paging::rfc3339_parse(s) {
            Some(i) => Ok(i),
            None => Err("Invalid expiration date format. Use YYYY-MM-DD"@),
        },
    }
}

/// Parse the optional expiry of an upload.
pub fn parse_expiry(expires_at: Option<&str>) -> (r: Result<Option<Instant>, AppError>)
    ensures
        match expires_at {
            None => r == Ok::<Option<Instant>, AppError>(None),
            Some(s) => match spec_parse_expiry(s@) {
                Ok(i) => r == Ok::<Option<Instant>, AppError>(Some(i)),
                Err(m) => r matches Err(e) && e matches AppError::ValidationError(t) && t@ == m,
            },
        },
{
    let s = match expires_at {
        None => return Ok(None),
        Some(s) => s,
    };
    proof {
        reveal_strlit("%Y-%m-%d");
    }
    match parse_naive_date(s, "%Y-%m-%d") {
        Some((y, mo, d)) => match utc_seconds(y, mo, d, 23, 59, 59) {
            Some(t) => Ok(Some((t, 0, 0))),
            None => Err(AppError::ValidationError(text::owned("Invalid date - cannot set time"))),
        },
        None => match paging::parse_rfc3339(s) {
            Some(i) => Ok(Some(i)),
            None => Err(
                AppError::ValidationError(
                    text::owned("Invalid expiration date format. Use YYYY-MM-DD"),
                ),
            ),
        },
    }
}

// ---------------------------------------------------------------------------
// Use of a code
// ---------------------------------------------------------------------------

/// Whether instant `a` lies strictly before the UTC instant `now`
/// (seconds, nanoseconds).
pub open spec fn spec_before(a: Instant, now: (i64, u32)) -> bool {
    a.0 < now.0 || (a.0 == now.0 && a.1 < now.1)
}

/// Whether a code with this expiry has expired at `now`. A code without an
/// expiry never expires.
pub open spec fn spec_expired(expires_at: Option<Instant>, now: (i64, u32)) -> bool {
    match expires_at {
        None => false,
        Some(e) => spec_before(e, now),
    }
}

pub fn is_expired(expires_at: Option<Instant>, now: (i64, u32)) -> (r: bool)
    ensures
        r == spec_expired(expires_at, now),
{
    match expires_at {
        None => false,
        Some(e) => e.0 < now.0 || (e.0 == now.0 && e.1 < now.1),
    }
}

/// The plain values of an `access_codes` row that a visit reads and writes.
pub struct AccessCodeRecord {
    pub code: String,
    pub expires_at: Option<Instant>,
    pub usage_count: i32,
    pub last_used_at: Option<(i64, u32)>,
    pub download_filename: Option<String>,
}

/// Admit a visit with the code at `now`: an expired code is refused and
/// left as it was; otherwise its use is counted and stamped.
pub fn use_access_code(rec: &mut AccessCodeRecord, now: (i64, u32)) -> (admitted: bool)
    requires
        old(rec).usage_count < i32::MAX,
    ensures
        admitted == !spec_expired(old(rec).expires_at, now),
        !admitted ==> *final(rec) == *old(rec),
        admitted ==> *final(rec) == (AccessCodeRecord {
            usage_count: (old(rec).usage_count + 1) as i32,
            last_used_at: Some(now),
            ..*old(rec)
        }),
{
    if is_expired(rec.expires_at, now) {
        return false;
    }
    rec.usage_count = rec.usage_count + 1;
    rec.last_used_at = Some(now);
    true
}

/// The `Content-Disposition` of the document download: the code's file
/// name, or the default one, with the `.docx` extension.
pub fn content_disposition(download_filename: Option<&str>) -> (r: String)
    ensures
        r@ == "attachment; filename=\""@ + (match download_filename {
            Some(n) => n@,
            None => DEFAULT_DOWNLOAD_NAME@,
        }) + ".docx\""@,
{
    let mut out = text::owned("attachment; filename=\"");
    match download_filename {
        Some(n) => out.append(n),
        None => out.append(DEFAULT_DOWNLOAD_NAME),
    }
    out.append(".docx\"");
    out
}

} // verus!

//! Personalising a DOCX template: the document is a ZIP archive, and the
//! access code goes into its relationships part in place of the
//! placeholder; every other part is copied as it is.
use vstd::prelude::*;
use vstd::utf8::{decode_utf8, encode_utf8, valid_utf8};
use std::io::{Cursor, Read, Write};
use zip::write::SimpleFileOptions;
use zip::{CompressionMethod, ZipArchive, ZipWriter};
use crate::access_codes::{self, TEMPLATE_PLACEHOLDER};
use crate::crypto;
use crate::errors::AppError;
use crate::text;

verus! {

/// The part of the document that carries the code.
pub const TARGET_PART: &'static str = "word/_rels/document.xml.rels";

/// File mode used for parts that record none.
pub const DEFAULT_MODE: u32 = 0o644;

#[verifier::external_type_specification]
#[verifier::external_body]
#[verifier::reject_recursive_types(R)]
pub struct ExZipArchive<R>(ZipArchive<R>);

/// An archive being built in memory. Verus refuses a declaration of the
/// ZIP writer type (its `Write + Seek` bounds), so the writer is held here.
#[verifier::external_body]
pub struct DocxWriter {
    inner: ZipWriter<Cursor<Vec<u8>>>,
}

#[verifier::external_type_specification]
#[verifier::external_body]
pub struct ExCompressionMethod(CompressionMethod);

#[verifier::external_type_specification]
#[verifier::external_body]
#[verifier::reject_recursive_types(T)]
pub struct ExCursor<T>(Cursor<T>);

/// The parts of an archive being read: name and uncompressed contents, in
/// archive order.
pub uninterp spec fn archive_parts(a: ZipArchive<Cursor<Vec<u8>>>) -> Seq<(Seq<char>, Seq<u8>)>;

/// The parts written so far to an archive being built: name and contents,
/// in the order they were started.
pub uninterp spec fn written_parts(w: DocxWriter) -> Seq<(Seq<char>, Seq<u8>)>;

/// The parts held by the ZIP archive encoded in `bytes`, as `ZipArchive`
/// reads them: name and uncompressed contents, in archive order.
pub uninterp spec fn zip_parts(bytes: Seq<u8>) -> Seq<(Seq<char>, Seq<u8>)>;

/// Whether `ZipArchive::new` opens `bytes` and every part then reads:
/// `by_index`, its name and `read_to_end` all succeed.
pub uninterp spec fn zip_readable(bytes: Seq<u8>) -> bool;

/// Whether every part of an archive being read reads: `by_index`, its name
/// and `read_to_end` all succeed.
pub uninterp spec fn archive_readable(a: ZipArchive<Cursor<Vec<u8>>>) -> bool;

/// Every part named like the relationships part is UTF-8.
pub open spec fn targets_utf8(parts: Seq<(Seq<char>, Seq<u8>)>) -> bool {
    forall|i: int| 0 <= i < parts.len() && #[trigger] parts[i].0 == TARGET_PART@ ==> valid_utf8(parts[i].1)
}

/// An error of the writing side: starting or writing a part of the new
/// archive.
pub open spec fn write_side_error(e: AppError) -> bool {
    e matches AppError::InternalError(m) && (access_codes::starts_with(m@, "Failed to start file '"@)
        || access_codes::starts_with(m@, "Failed to write file '"@))
}

/// An error of finishing the new archive.
pub open spec fn finalize_error(e: AppError) -> bool {
    e matches AppError::InternalError(m) && access_codes::starts_with(
        m@,
        "Failed to finalize output DOCX: "@,
    )
}

proof fn lemma_concat_starts(a: Seq<char>, b: Seq<char>, c: Seq<char>, d: Seq<char>)
    ensures
        access_codes::starts_with(a + b + c + d, a),
{
    assert((a + b + c + d).take(a.len() as int) =~= a);
}

/// Why a part could not be read.
pub enum PartReadError {
    /// The part could not be opened.
    Open(String),
    /// The part's contents could not be read.
    Read { name: String, detail: String },
}

/// Calls `ZipArchive::new` on the bytes. The archive it opens holds the
/// parts encoded in the bytes; whether the bytes open is not stated.
#[verifier::external_body]
fn open_archive(bytes: Vec<u8>) -> (r: Result<ZipArchive<Cursor<Vec<u8>>>, String>)
    ensures
        zip_readable(bytes@) ==> r is Ok,
        r matches Ok(a) ==> archive_parts(a) == zip_parts(bytes@) && archive_readable(a)
            == zip_readable(bytes@),
{
    ZipArchive::new(Cursor::new(bytes)).map_err(|e| e.to_string())
}

/// Calls `ZipArchive::len`: the number of parts.
#[verifier::external_body]
fn part_count(a: &ZipArchive<Cursor<Vec<u8>>>) -> (r: usize)
    ensures
        r == archive_parts(*a).len(),
{
    a.len()
}

/// Calls `ZipArchive::by_index`, then reads the part's name, contents
/// (`read_to_end`), compression method and Unix mode. On success the name
/// and contents are those of part `i`; reading leaves the parts as they
/// were.
#[verifier::external_body]
fn read_part(a: &mut ZipArchive<Cursor<Vec<u8>>>, i: usize) -> (r: Result<
    (String, Vec<u8>, CompressionMethod, Option<u32>),
    PartReadError,
>)
    requires
        i < archive_parts(*old(a)).len(),
    ensures
        archive_parts(*final(a)) == archive_parts(*old(a)),
        archive_readable(*final(a)) == archive_readable(*old(a)),
        archive_readable(*old(a)) ==> r is Ok,
        r matches Ok((n, d, _, _)) ==> archive_parts(*old(a))[i as int] == (n@, d@),
{
    let mut file = a.by_index(i).map_err(|e| PartReadError::Open(e.to_string()))?;
    let name = file.name().map_err(|e| PartReadError::Open(e.to_string()))?.to_string();
    let mut contents = Vec::new();
    match file.read_to_end(&mut contents) {
        Ok(_) => Ok((name, contents, file.compression(), file.unix_mode())),
        Err(e) => Err(PartReadError::Read { name, detail: e.to_string() }),
    }
}

/// Calls `ZipWriter::new` on an empty in-memory buffer: no parts yet.
#[verifier::external_body]
fn new_writer() -> (w: DocxWriter)
    ensures
        written_parts(w) == Seq::<(Seq<char>, Seq<u8>)>::empty(),
{
    DocxWriter { inner: ZipWriter::new(Cursor::new(Vec::new())) }
}

/// Calls `ZipWriter::start_file` with the compression method and Unix
/// permissions given: on success a new, empty part of that name follows
/// the parts already written.
#[verifier::external_body]
fn start_part(w: &mut DocxWriter, name: &str, method: CompressionMethod, mode: u32) -> (r: Result<(), String>)
    ensures
        r is Ok ==> written_parts(*final(w)) == written_parts(*old(w)).push((name@, Seq::empty())),
{
    let options = SimpleFileOptions::default().compression_method(method).unix_permissions(mode);
    w.inner.start_file(name, options).map_err(|e| e.to_string())
}

/// Calls `Write::write_all` on the writer: on success the bytes are
/// appended to the part being written.
#[verifier::external_body]
fn write_part(w: &mut DocxWriter, data: &[u8]) -> (r: Result<(), String>)
    requires
        written_parts(*old(w)).len() > 0,
    ensures
        r is Ok ==> written_parts(*final(w)) == written_parts(*old(w)).update(
            written_parts(*old(w)).len() - 1,
            (written_parts(*old(w)).last().0, written_parts(*old(w)).last().1 + data@),
        ),
{
    w.inner.write_all(data).map_err(|e| e.to_string())
}

/// Calls `ZipWriter::finish` and takes the buffer: the archive's bytes.
/// The bytes are not stated; read back as an archive they hold the parts
/// written, as the crate's write-then-read tests and examples check.
#[verifier::external_body]
fn finish_writer(w: DocxWriter) -> (r: Result<Vec<u8>, String>)
    ensures
        r matches Ok(b) ==> zip_parts(b@) == written_parts(w),
{
    w.inner.finish().map(|c| c.into_inner()).map_err(|e| e.to_string())
}

/// The contents written for a part: the relationships part personalised
/// with the code (`None` when it is not UTF-8), any other part unchanged.
pub open spec fn spec_part_output(name: Seq<char>, contents: Seq<u8>, access_code: Seq<char>) -> Option<
    Seq<u8>,
> {
    if name == TARGET_PART@ {
        if valid_utf8(contents) {
            Some(
                encode_utf8(
                    text::replace_all(decode_utf8(contents), TEMPLATE_PLACEHOLDER@, access_code),
                ),
            )
        } else {
            None
        }
    } else {
        Some(contents)
    }
}

fn concat4(a: &str, b: &str, c: &str, d: &str) -> (r: String)
    ensures
        r@ == a@ + b@ + c@ + d@,
{
    let mut s = text::owned(a);
    s.append(b);
    s.append(c);
    s.append(d);
    s
}

/// Personalise one part. The relationships part must be UTF-8.
pub fn process_part(name: &str, contents: Vec<u8>, access_code: &str) -> (r: Result<Vec<u8>, AppError>)
    ensures
        match spec_part_output(name@, contents@, access_code@) {
            Some(out) => r matches Ok(b) && b@ == out,
            None => r matches Err(e) && e matches AppError::InternalError(m)
                && access_codes::starts_with(m@, "Invalid UTF-8 in DOCX file '"@ + name@ + "': "@),
        },
{
    if !text::str_eq(name, TARGET_PART) {
        return Ok(contents);
    }
    match crypto::string_from_utf8(contents) {
        Err(e) => {
            let m = concat4("Invalid UTF-8 in DOCX file '", name, "': ", e.as_str());
            proof {
                let p = "Invalid UTF-8 in DOCX file '"@ + name@ + "': "@;
                assert(m@ == p + e@);
                assert((p + e@).take(p.len() as int) =~= p);
            }
            Err(AppError::InternalError(m))
        },
        Ok(s) => {
            let chars = text::chars_of(s.as_str());
            let pat = text::chars_of(TEMPLATE_PLACEHOLDER);
            let code = text::chars_of(access_code);
            let out = text::replace_chars(&chars, &pat, &code);
            let out_s = text::string_of(&out);
            Ok(crypto::utf8_bytes(out_s.as_str()))
        },
    }
}

/// Whether `out` holds the first parts of `parts`, each with its
/// personalised contents.
pub open spec fn rewritten(
    parts: Seq<(Seq<char>, Seq<u8>)>,
    out: Seq<(Seq<char>, Seq<u8>)>,
    access_code: Seq<char>,
) -> bool {
    &&& out.len() <= parts.len()
    &&& forall|i: int|
        0 <= i < out.len() ==> (#[trigger] out[i]).0 == parts[i].0 && spec_part_output(
            parts[i].0,
            parts[i].1,
            access_code,
        ) == Some(out[i].1)
}

fn message2(a: &str, b: &str) -> (r: String)
    ensures
        r@ == a@ + b@,
{
    let mut s = text::owned(a);
    s.append(b);
    s
}

/// Copy every part of the archive into a new one, personalising the
/// relationships part. On success the new archive holds exactly the parts
/// of the old one, in order, with their personalised contents.
pub fn rewrite_archive(archive: &mut ZipArchive<Cursor<Vec<u8>>>, access_code: &str) -> (r: Result<
    DocxWriter,
    AppError,
>)
    ensures
        r matches Ok(w) ==> written_parts(w).len() == archive_parts(*old(archive)).len()
            && rewritten(archive_parts(*old(archive)), written_parts(w), access_code@),
        r matches Err(e) ==> e is InternalError,
        archive_readable(*old(archive)) && targets_utf8(archive_parts(*old(archive))) ==> (r is Ok
            || (r matches Err(e) && write_side_error(e))),
{
    let ghost parts = archive_parts(*archive);
    let mut writer = new_writer();
    let n = part_count(archive);
    let mut i: usize = 0;
    while i < n
        invariant
            n == parts.len(),
            i <= n,
            archive_parts(*archive) == parts,
            archive_readable(*archive) == archive_readable(*old(archive)),
            parts == archive_parts(*old(archive)),
            written_parts(writer).len() == i,
            rewritten(parts, written_parts(writer), access_code@),
        decreases n - i,
    {
        let (name, contents, method, mode) = match read_part(archive, i) {
            Ok(p) => p,
            Err(PartReadError::Open(e)) => return Err(
                AppError::InternalError(message2("Failed to read file from DOCX archive: ", e.as_str())),
            ),
            Err(PartReadError::Read { name, detail }) => return Err(
                AppError::InternalError(
                    concat4("Failed to read file '", name.as_str(), "' from DOCX: ", detail.as_str()),
                ),
            ),
        };
        proof {
            if targets_utf8(parts) && name@ == TARGET_PART@ {
                assert(parts[i as int].0 == TARGET_PART@);
            }
        }
        let processed = process_part(name.as_str(), contents, access_code)?;
        let mode = match mode {
            Some(m) => m,
            None => DEFAULT_MODE,
        };
        let ghost before = written_parts(writer);
        match start_part(&mut writer, name.as_str(), method, mode) {
            Ok(()) => {},
            Err(e) => {
                let m = concat4("Failed to start file '", name.as_str(), "' in output DOCX: ", e.as_str());
                proof {
                    lemma_concat_starts("Failed to start file '"@, name@, "' in output DOCX: "@, e@);
                }
                return Err(AppError::InternalError(m));
            },
        }
        let ghost started = written_parts(writer);
        match write_part(&mut writer, &processed) {
            Ok(()) => {},
            Err(e) => {
                let m = concat4("Failed to write file '", name.as_str(), "' to output DOCX: ", e.as_str());
                proof {
                    lemma_concat_starts("Failed to write file '"@, name@, "' to output DOCX: "@, e@);
                }
                return Err(AppError::InternalError(m));
            },
        }
        proof {
            let w = written_parts(writer);
            assert(started == before.push((name@, Seq::<u8>::empty())));
            assert(Seq::<u8>::empty() + processed@ =~= processed@);
            assert(w == before.push((name@, processed@)));
            assert forall|k: int| 0 <= k < w.len() implies (#[trigger] w[k]).0 == parts[k].0
                && spec_part_output(parts[k].0, parts[k].1, access_code@) == Some(w[k].1) by {
                if k < before.len() {
                    assert(w[k] == before[k]);
                }
            }
        }
        i = i + 1;
    }
    Ok(writer)
}

/// Personalise a DOCX template with the access code. On success the new
/// document holds exactly the parts of the template, in order, with the
/// relationships part personalised. Errors name the step that failed;
/// whether the bytes open as an archive belongs to the ZIP codec.
pub fn process_docx_template(docx_bytes: &[u8], access_code: &str) -> (r: Result<Vec<u8>, AppError>)
    ensures
        r matches Err(e) ==> e is InternalError,
        r matches Ok(out) ==> zip_parts(out@).len() == zip_parts(docx_bytes@).len() && rewritten(
            zip_parts(docx_bytes@),
            zip_parts(out@),
            access_code@,
        ),
        zip_readable(docx_bytes@) && targets_utf8(zip_parts(docx_bytes@)) ==> (r is Ok || (r matches Err(
            e,
        ) && (write_side_error(e) || finalize_error(e)))),
{
    let bytes = vstd::slice::slice_to_vec(docx_bytes);
    let mut archive = match open_archive(bytes) {
        Ok(a) => a,
        Err(e) => return Err(
            AppError::InternalError(message2("Failed to open DOCX as ZIP archive: ", e.as_str())),
        ),
    };
    let writer = rewrite_archive(&mut archive, access_code)?;
    match finish_writer(writer) {
        Ok(b) => Ok(b),
        Err(e) => {
            let m = message2("Failed to finalize output DOCX: ", e.as_str());
            proof {
                assert(m@.take("Failed to finalize output DOCX: "@.len() as int) =~= "Failed to finalize output DOCX: "@);
            }
            Err(AppError::InternalError(m))
        },
    }
}

} // verus!

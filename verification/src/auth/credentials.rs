//! Argon2 password hashing and verification, the session hash, and the
//! random single-use tokens of the local-password flow.
use vstd::prelude::*;
use vstd::utf8::encode_utf8;
use argon2::password_hash::{PasswordHash, PasswordHasher, PasswordVerifier, SaltString};
use blake2::Digest;
use rand::RngExt;
use crate::auth::backend::AuthError;
use crate::crypto;
use crate::text;

verus! {

/// Whether `h` parses as a PHC password-hash string (`PasswordHash::new`).
pub uninterp spec fn argon2_hash_parses(h: Seq<char>) -> bool;

/// Whether Argon2 with default parameters accepts password `pw` against the
/// parsed hash string `h` (`Argon2::verify_password(..).is_ok()`).
pub uninterp spec fn argon2_verifies(pw: Seq<char>, h: Seq<char>) -> bool;

/// The BLAKE2b-512 digest of a byte string.
pub uninterp spec fn blake2b512(data: Seq<u8>) -> Seq<u8>;

/// Whether Argon2 takes the password: its UTF-8 form has at most
/// `argon2::MAX_PWD_LEN` (2^32 - 1) bytes.
pub open spec fn argon2_accepts(pw: Seq<char>) -> bool {
    encode_utf8(pw).len() <= 0xFFFF_FFFF
}

/// The start of every hash text Argon2 writes with its default algorithm,
/// Argon2id: the PHC separator and the algorithm's identifier.
pub open spec fn argon2id_prefix() -> Seq<char> {
    seq!['$', 'a', 'r', 'g', 'o', 'n', '2', 'i', 'd', '$']
}

/// Calls `Argon2::default().hash_password` with a fresh random salt
/// (`SaltString::generate(&mut OsRng)`). The salt is random, so the hash text
/// is not determined by the password; the contract claims that the text
/// parses and that the same password verifies against it. As the source
/// shows, with the default parameters and the generated 16-byte salt the one
/// refusal is a password longer than `MAX_PWD_LEN` bytes (`verify_inputs`).
/// The default algorithm is Argon2id, and the PHC text starts `$argon2id$`.
#[verifier::external_body]
fn argon2_hash(password: &str) -> (r: Option<String>)
    ensures
        r is Some <==> argon2_accepts(password@),
        r matches Some(h) ==> argon2id_prefix().len() <= h@.len() && h@.take(10) == argon2id_prefix(),
        r matches Some(h) ==> argon2_hash_parses(h@) && argon2_verifies(password@, h@),
{
    let salt = SaltString::generate(&mut argon2::password_hash::rand_core::OsRng);
    argon2::Argon2::default().hash_password(password.as_bytes(), &salt).ok().map(|h| h.to_string())
}

/// Calls `PasswordHash::new` and then `Argon2::default().verify_password`.
/// `None` when the hash text does not parse; otherwise whether the password
/// verifies. Both results are named.
#[verifier::external_body]
fn argon2_check(password: &str, hash: &str) -> (r: Option<bool>)
    ensures
        r is Some <==> argon2_hash_parses(hash@),
        r matches Some(b) ==> b == argon2_verifies(password@, hash@),
{
    match PasswordHash::new(hash) {
        Err(_) => None,
        Ok(parsed) => Some(argon2::Argon2::default().verify_password(password.as_bytes(), &parsed).is_ok()),
    }
}

/// Calls `Blake2b512::digest`. The digest is named; it is 64 bytes long.
#[verifier::external_body]
fn blake2b512_digest(data: &[u8]) -> (r: Vec<u8>)
    ensures
        r@ == blake2b512(data@),
        r@.len() == 64,
{
    blake2::Blake2b512::digest(data).to_vec()
}

/// Calls `rand::rng().random::<[u8; 32]>()`: 32 random bytes.
#[verifier::external_body]
fn random_32_bytes() -> (r: [u8; 32]) {
    rand::rng().random()
}

/// Calls `uuid::Uuid::new_v4()` and renders it hyphenated: a random UUID,
/// whose hyphenated text is always 36 characters long.
#[verifier::external_body]
pub(crate) fn random_uuid_text() -> (r: String)
    ensures
        r@.len() == 36,
{
    uuid::Uuid::new_v4().to_string()
}

/// Hash a password with Argon2 and a fresh salt. On success the hash text
/// parses and the password verifies against it.
pub fn hash_password(password: &str) -> (r: Result<String, AuthError>)
    ensures
        r is Ok <==> argon2_accepts(password@),
        r matches Ok(h) ==> argon2id_prefix().len() <= h@.len() && h@.take(10) == argon2id_prefix(),
        r matches Ok(h) ==> argon2_hash_parses(h@) && argon2_verifies(password@, h@),
        r matches Err(e) ==> e is Internal,
{
    match argon2_hash(password) {
        Some(h) => Ok(h),
        None => Err(AuthError::Internal(text::owned("Failed to hash password"))),
    }
}

/// The password hashing of the seed path for test administrators: the same
/// hash format as the runtime flow.
pub fn hash_password_for_seed(password: &str) -> (r: Result<String, AuthError>)
    ensures
        r is Ok <==> argon2_accepts(password@),
        r matches Ok(h) ==> argon2_hash_parses(h@) && argon2_verifies(password@, h@),
        r matches Ok(h) ==> argon2id_prefix().len() <= h@.len() && h@.take(10) == argon2id_prefix(),
        r matches Err(e) ==> e is Internal,
{
    hash_password(password)
}

/// Argon2 hash of a fresh random throwaway secret, for the password column
/// of rows that wait for an invite: it parses, so verification against it
/// answers `Ok(false)`-style rather than an error.
pub fn placeholder_password_hash() -> (r: Result<String, AuthError>)
    ensures
        r matches Ok(h) && argon2_hash_parses(h@),
{
    let mut plaintext = text::owned("placeholder_");
    let u = random_uuid_text();
    plaintext.append(u.as_str());
    proof {
        reveal_strlit("placeholder_");
        assert(plaintext@.len() == 48);
        text::lemma_utf8_len_at_most(plaintext@);
    }
    hash_password(plaintext.as_str())
}

/// Check a password against a stored hash: an error when the hash text does
/// not parse, otherwise whether the password matches.
pub fn verify_password(password: &str, password_hash: &str) -> (r: Result<bool, AuthError>)
    ensures
        r is Ok <==> argon2_hash_parses(password_hash@),
        r matches Ok(b) ==> b == argon2_verifies(password@, password_hash@),
        r matches Err(e) ==> e is InvalidHash,
{
    match argon2_check(password, password_hash) {
        None => Err(AuthError::InvalidHash),
        Some(b) => Ok(b),
    }
}

/// A fresh random token: 32 random bytes as 64 lower-case hex digits.
pub fn generate_verification_token() -> (r: String)
    ensures
        exists|b: Seq<u8>| b.len() == 32 && r@ == crypto::hex_encode(b),
{
    let bytes = random_32_bytes();
    let s = crypto::hex_encode_bytes(&bytes);
    assert(bytes@.len() == 32);
    s
}

/// The eight little-endian bytes of `n`.
pub open spec fn le64(n: u64) -> Seq<u8> {
    seq![
        (n & 0xff) as u8,
        ((n >> 8u64) & 0xff) as u8,
        ((n >> 16u64) & 0xff) as u8,
        ((n >> 24u64) & 0xff) as u8,
        ((n >> 32u64) & 0xff) as u8,
        ((n >> 40u64) & 0xff) as u8,
        ((n >> 48u64) & 0xff) as u8,
        ((n >> 56u64) & 0xff) as u8,
    ]
}

/// A field written unambiguously: its length in eight little-endian bytes,
/// then its bytes.
pub open spec fn framed(b: Seq<u8>) -> Seq<u8> {
    le64(b.len() as u64) + b
}

/// The bytes hashed for the session: password hash and email, each framed
/// with its length, then a tag byte (1 with a TOTP secret, 0 without) and
/// the framed secret when there is one. No two different field triples give
/// the same bytes (see [`session_material_is_unambiguous`]).
pub open spec fn session_material(password_hash: Seq<char>, email: Seq<char>, totp_secret: Option<
    Seq<char>,
>) -> Seq<u8> {
    framed(encode_utf8(password_hash)) + (framed(encode_utf8(email)) + match totp_secret {
        Some(t) => seq![1u8] + framed(encode_utf8(t)),
        None => seq![0u8],
    })
}

proof fn lemma_le64_injective(x: u64, y: u64)
    requires
        le64(x) == le64(y),
    ensures
        x == y,
{
    assert(le64(x)[0] == le64(y)[0] && le64(x)[1] == le64(y)[1] && le64(x)[2] == le64(y)[2]
        && le64(x)[3] == le64(y)[3] && le64(x)[4] == le64(y)[4] && le64(x)[5] == le64(y)[5]
        && le64(x)[6] == le64(y)[6] && le64(x)[7] == le64(y)[7]);
    assert(((x & 0xff) as u8 == (y & 0xff) as u8 && ((x >> 8u64) & 0xff) as u8 == ((y >> 8u64)
        & 0xff) as u8 && ((x >> 16u64) & 0xff) as u8 == ((y >> 16u64) & 0xff) as u8 && ((x
        >> 24u64) & 0xff) as u8 == ((y >> 24u64) & 0xff) as u8 && ((x >> 32u64) & 0xff) as u8 == ((
    y >> 32u64) & 0xff) as u8 && ((x >> 40u64) & 0xff) as u8 == ((y >> 40u64) & 0xff) as u8 && ((x
        >> 48u64) & 0xff) as u8 == ((y >> 48u64) & 0xff) as u8 && ((x >> 56u64) & 0xff) as u8 == ((
    y >> 56u64) & 0xff) as u8) ==> x == y) by (bit_vector);
}

/// A framed field followed by anything splits back into the field and the rest.
proof fn lemma_framed_split(a: Seq<u8>, r1: Seq<u8>, b: Seq<u8>, r2: Seq<u8>)
    requires
        a.len() <= u64::MAX,
        b.len() <= u64::MAX,
        framed(a) + r1 == framed(b) + r2,
    ensures
        a == b,
        r1 == r2,
{
    let s1 = framed(a) + r1;
    let s2 = framed(b) + r2;
    assert(s1.take(8) =~= le64(a.len() as u64));
    assert(s2.take(8) =~= le64(b.len() as u64));
    lemma_le64_injective(a.len() as u64, b.len() as u64);
    assert(a.len() == b.len());
    assert(s1.subrange(8, 8 + a.len() as int) =~= a);
    assert(s2.subrange(8, 8 + b.len() as int) =~= b);
    assert(s1.skip(8 + a.len() as int) =~= r1);
    assert(s2.skip(8 + b.len() as int) =~= r2);
}

proof fn lemma_encode_utf8_injective(a: Seq<char>, b: Seq<char>)
    requires
        encode_utf8(a) == encode_utf8(b),
    ensures
        a == b,
{
    vstd::utf8::encode_utf8_decode_utf8(a);
    vstd::utf8::encode_utf8_decode_utf8(b);
}

/// Different password hashes, emails or TOTP secrets give different session
/// material: a change of any one field changes what is hashed.
pub proof fn session_material_is_unambiguous(
    p1: Seq<char>,
    e1: Seq<char>,
    t1: Option<Seq<char>>,
    p2: Seq<char>,
    e2: Seq<char>,
    t2: Option<Seq<char>>,
)
    requires
        encode_utf8(p1).len() <= u64::MAX,
        encode_utf8(e1).len() <= u64::MAX,
        encode_utf8(p2).len() <= u64::MAX,
        encode_utf8(e2).len() <= u64::MAX,
        t1 matches Some(t) ==> encode_utf8(t).len() <= u64::MAX,
        t2 matches Some(t) ==> encode_utf8(t).len() <= u64::MAX,
        session_material(p1, e1, t1) == session_material(p2, e2, t2),
    ensures
        p1 == p2,
        e1 == e2,
        t1 == t2,
{
    let tail1 = match t1 {
        Some(t) => seq![1u8] + framed(encode_utf8(t)),
        None => seq![0u8],
    };
    let tail2 = match t2 {
        Some(t) => seq![1u8] + framed(encode_utf8(t)),
        None => seq![0u8],
    };
    lemma_framed_split(
        encode_utf8(p1),
        framed(encode_utf8(e1)) + tail1,
        encode_utf8(p2),
        framed(encode_utf8(e2)) + tail2,
    );
    lemma_encode_utf8_injective(p1, p2);
    lemma_framed_split(encode_utf8(e1), tail1, encode_utf8(e2), tail2);
    lemma_encode_utf8_injective(e1, e2);
    assert(tail1[0] == tail2[0]);
    match (t1, t2) {
        (Some(a), Some(b)) => {
            assert(tail1.drop_first() =~= framed(encode_utf8(a)) + Seq::<u8>::empty());
            assert(tail2.drop_first() =~= framed(encode_utf8(b)) + Seq::<u8>::empty());
            lemma_framed_split(encode_utf8(a), Seq::empty(), encode_utf8(b), Seq::empty());
            lemma_encode_utf8_injective(a, b);
        },
        _ => {},
    }
}

/// Append `s` framed with its length.
fn append_framed(out: &mut Vec<u8>, s: &str)
    ensures
        final(out)@ == old(out)@ + framed(encode_utf8(s@)),
{
    let ghost o = out@;
    let n: u64 = s.as_bytes().len() as u64;
    out.push((n & 0xff) as u8);
    out.push(((n >> 8u64) & 0xff) as u8);
    out.push(((n >> 16u64) & 0xff) as u8);
    out.push(((n >> 24u64) & 0xff) as u8);
    out.push(((n >> 32u64) & 0xff) as u8);
    out.push(((n >> 40u64) & 0xff) as u8);
    out.push(((n >> 48u64) & 0xff) as u8);
    out.push(((n >> 56u64) & 0xff) as u8);
    assert(out@ =~= o + le64(n));
    append_utf8(out, s);
    assert(n == encode_utf8(s@).len() as u64);
    assert(out@ =~= o + framed(encode_utf8(s@)));
}

fn append_utf8(out: &mut Vec<u8>, s: &str)
    ensures
        final(out)@ == old(out)@ + encode_utf8(s@),
{
    let b = s.as_bytes();
    let ghost o = out@;
    let mut i: usize = 0;
    while i < b.len()
        invariant
            b@ == encode_utf8(s@),
            i <= b@.len(),
            out@ == o + b@.take(i as int),
        decreases b@.len() - i,
    {
        out.push(b[i]);
        assert(b@.take(i + 1) =~= b@.take(i as int).push(b@[i as int]));
        i = i + 1;
    }
    assert(b@.take(i as int) =~= b@);
}

/// BLAKE2b-512 digest of the security-relevant fields, each written
/// unambiguously; a change of password, email or TOTP secret changes the
/// digest input and so invalidates sessions bound to the old digest.
pub fn compute_session_hash(password_hash: &str, email: &str, totp_secret: Option<&str>) -> (r: Vec<
    u8,
>)
    ensures
        r@ == blake2b512(
            session_material(
                password_hash@,
                email@,
                match totp_secret {
                    Some(t) => Some(t@),
                    None => None,
                },
            ),
        ),
        r@.len() == 64,
{
    let mut data: Vec<u8> = Vec::new();
    append_framed(&mut data, password_hash);
    let mut rest: Vec<u8> = Vec::new();
    append_framed(&mut rest, email);
    match totp_secret {
        Some(t) => {
            rest.push(1u8);
            append_framed(&mut rest, t);
        },
        None => {
            rest.push(0u8);
        },
    }
    data.append(&mut rest);
    assert(data@ =~= session_material(
        password_hash@,
        email@,
        match totp_secret {
            Some(t) => Some(t@),
            None => None,
        },
    ));
    blake2b512_digest(&data)
}

} // verus!

//! AES-256-GCM encryption for sensitive data at rest (TOTP secrets,
//! single-use tokens, encrypted settings), stored as
//! base64(nonce || ciphertext), and the keyed phone-number token.
use vstd::prelude::*;
use vstd::utf8::{decode_utf8, encode_utf8, valid_utf8};
use crate::text;
use base64::Engine;
use aes_gcm::aead::{Aead, AeadCore, KeyInit};
use hmac::Mac;

verus! {

// ---------------------------------------------------------------------------
// Hex (the `hex` crate)
// ---------------------------------------------------------------------------

/// Value of one hex digit, either case.
pub open spec fn hex_val(c: u8) -> Option<u8> {
    if 0x30 <= c <= 0x39 {
        Some((c - 0x30) as u8)
    } else if 0x41 <= c <= 0x46 {
        Some((c - 0x41 + 10) as u8)
    } else if 0x61 <= c <= 0x66 {
        Some((c - 0x61 + 10) as u8)
    } else {
        None
    }
}

/// `hex::decode`: pairs of hex digits, high nibble first; odd length or a
/// non-digit gives `None`.
pub open spec fn hex_decode(s: Seq<u8>) -> Option<Seq<u8>>
    decreases s.len(),
{
    if s.len() == 0 {
        Some(Seq::empty())
    } else if s.len() == 1 {
        None
    } else {
        match (hex_val(s[0]), hex_val(s[1]), hex_decode(s.skip(2))) {
            (Some(h), Some(l), Some(rest)) => Some(seq![(h * 16 + l) as u8] + rest),
            _ => None,
        }
    }
}

/// Lower-case hex digit of a nibble.
pub open spec fn hex_digit(n: u8) -> char {
    if n < 10 {
        (('0' as u32) + n) as char
    } else {
        (('a' as u32) + n - 10) as char
    }
}

/// `hex::encode`: two lower-case hex digits per byte, high nibble first.
pub open spec fn hex_encode(b: Seq<u8>) -> Seq<char>
    decreases b.len(),
{
    if b.len() == 0 {
        Seq::empty()
    } else {
        seq![hex_digit(b[0] / 16), hex_digit(b[0] % 16)] + hex_encode(b.drop_first())
    }
}

/// Calls `hex::decode`. Its contract restates the crate's definition:
/// digits of either case in pairs, odd lengths and other characters refused.
#[verifier::external_body]
fn hex_decode_bytes(data: &[u8]) -> (r: Option<Vec<u8>>)
    ensures
        match r {
            None => hex_decode(data@) is None,
            Some(v) => hex_decode(data@) == Some(v@),
        },
{
    hex::decode(data).ok()
}

/// Calls `hex::encode`. Its contract restates the crate's definition:
/// lower-case digits, two per byte.
#[verifier::external_body]
pub(crate) fn hex_encode_bytes(data: &[u8]) -> (r: String)
    ensures
        r@ == hex_encode(data@),
{
    hex::encode(data)
}

// ---------------------------------------------------------------------------
// Base64 (standard alphabet, padded)
// ---------------------------------------------------------------------------

/// What `base64::engine::general_purpose::STANDARD.encode` gives for the bytes.
pub uninterp spec fn base64_encode(b: Seq<u8>) -> Seq<char>;

/// What `STANDARD.decode` gives for a text: the bytes, or `None` on error.
pub uninterp spec fn base64_decode(s: Seq<char>) -> Option<Seq<u8>>;

/// The length of the padded encoding of `n` bytes fits in `usize` (the
/// encoder panics otherwise).
pub open spec fn base64_len_fits(n: nat) -> bool {
    (n / 3) * 4 + (if n % 3 > 0 { 4int } else { 0 }) <= usize::MAX
}

/// Calls `STANDARD.encode`. The result is named; the contract also claims
/// that decoding it gives the input back, which is what a padded canonical
/// encoding guarantees.
#[verifier::external_body]
fn base64_encode_bytes(data: &[u8]) -> (r: String)
    requires
        base64_len_fits(data@.len()),
    ensures
        r@ == base64_encode(data@),
        base64_decode(r@) == Some(data@),
{
    base64::engine::general_purpose::STANDARD.encode(data)
}

/// Calls `STANDARD.decode`. The result is named.
#[verifier::external_body]
fn base64_decode_str(s: &str) -> (r: Option<Vec<u8>>)
    ensures
        match r {
            None => base64_decode(s@) is None,
            Some(v) => base64_decode(s@) == Some(v@),
        },
{
    base64::engine::general_purpose::STANDARD.decode(s).ok()
}

// ---------------------------------------------------------------------------
// AES-256-GCM
// ---------------------------------------------------------------------------

/// Largest plaintext AES-GCM accepts (2^36 bytes).
pub open spec fn aes_gcm_p_max() -> nat {
    0x10_0000_0000
}

/// Ciphertext and tag that AES-256-GCM gives for key, 12-byte nonce and
/// plaintext, with no associated data.
pub uninterp spec fn aes_gcm_seal(key: Seq<u8>, nonce: Seq<u8>, pt: Seq<u8>) -> Seq<u8>;

/// Plaintext recovered from ciphertext-with-tag, or `None` when the tag
/// does not authenticate.
pub uninterp spec fn aes_gcm_open(key: Seq<u8>, nonce: Seq<u8>, ct: Seq<u8>) -> Option<Seq<u8>>;

/// Calls `Aead::encrypt` of `aes_gcm::Aes256Gcm`. The source refuses a
/// plaintext longer than 2^36 bytes and otherwise returns the ciphertext with
/// its 16-byte tag appended; the contract names that ciphertext and claims
/// that opening it with the same key and nonce gives the plaintext back.
#[verifier::external_body]
fn aes_gcm_encrypt(key: &[u8; 32], nonce: &[u8; 12], pt: &[u8]) -> (r: Option<Vec<u8>>)
    ensures
        pt@.len() <= aes_gcm_p_max() ==> r is Some,
        pt@.len() > aes_gcm_p_max() ==> r is None,
        r matches Some(c) ==> c@ == aes_gcm_seal(key@, nonce@, pt@),
        r matches Some(c) ==> c@.len() == pt@.len() + 16,
        r matches Some(c) ==> aes_gcm_open(key@, nonce@, c@) == Some(pt@),
{
    let cipher = aes_gcm::Aes256Gcm::new(&aes_gcm::Key::<aes_gcm::Aes256Gcm>::from(*key));
    cipher.encrypt(aes_gcm::Nonce::from_slice(nonce), pt).ok()
}

/// Calls `Aead::decrypt` of `aes_gcm::Aes256Gcm`. The result is named.
#[verifier::external_body]
fn aes_gcm_decrypt(key: &[u8; 32], nonce: &[u8], ct: &[u8]) -> (r: Option<Vec<u8>>)
    requires
        nonce@.len() == 12,
    ensures
        match r {
            None => aes_gcm_open(key@, nonce@, ct@) is None,
            Some(v) => aes_gcm_open(key@, nonce@, ct@) == Some(v@),
        },
{
    let cipher = aes_gcm::Aes256Gcm::new(&aes_gcm::Key::<aes_gcm::Aes256Gcm>::from(*key));
    cipher.decrypt(aes_gcm::Nonce::from_slice(nonce), ct).ok()
}

/// Calls `AeadCore::generate_nonce` with the operating-system generator.
/// The nonce is random: nothing is claimed of its value.
#[verifier::external_body]
fn fresh_nonce() -> (r: [u8; 12]) {
    let n = aes_gcm::Aes256Gcm::generate_nonce(&mut aes_gcm::aead::OsRng);
    n.into()
}

// ---------------------------------------------------------------------------
// UTF-8 (std)
// ---------------------------------------------------------------------------

/// Calls `String::from_utf8`: the text when the bytes are valid UTF-8,
/// otherwise the error's rendered text (not stated).
#[verifier::external_body]
pub(crate) fn string_from_utf8(v: Vec<u8>) -> (r: Result<String, String>)
    ensures
        r is Ok <==> valid_utf8(v@),
        r matches Ok(s) ==> s@ == decode_utf8(v@),
{
    String::from_utf8(v).map_err(|e| e.to_string())
}

/// The bytes of a string's UTF-8 encoding.
pub(crate) fn utf8_bytes(s: &str) -> (r: Vec<u8>)
    ensures
        r@ == encode_utf8(s@),
{
    let b = s.as_bytes();
    let mut v: Vec<u8> = Vec::new();
    let mut i: usize = 0;
    while i < b.len()
        invariant
            b@ == encode_utf8(s@),
            i <= b@.len(),
            v@ == b@.take(i as int),
        decreases b@.len() - i,
    {
        v.push(b[i]);
        assert(b@.take(i + 1) =~= b@.take(i as int).push(b@[i as int]));
        i = i + 1;
    }
    assert(b@.take(i as int) =~= b@);
    v
}

// ---------------------------------------------------------------------------
// HMAC-SHA256
// ---------------------------------------------------------------------------

/// The HMAC-SHA256 tag of a message under a key.
pub uninterp spec fn hmac_sha256(key: Seq<u8>, msg: Seq<u8>) -> Seq<u8>;

/// Calls `Hmac::<Sha256>::new_from_slice`, `update` and `finalize`. HMAC
/// accepts keys of any length, so the call does not fail; the tag is named.
#[verifier::external_body]
fn hmac_sha256_tag(key: &[u8], msg: &[u8]) -> (r: Vec<u8>)
    ensures
        r@ == hmac_sha256(key@, msg@),
{
    let mut mac = <hmac::Hmac<sha2::Sha256> as Mac>::new_from_slice(key).unwrap();
    mac.update(msg);
    mac.finalize().into_bytes().to_vec()
}

// ---------------------------------------------------------------------------
// The key
// ---------------------------------------------------------------------------

/// The 32-byte AES-256-GCM key.
pub struct EncryptionKey {
    bytes: [u8; 32],
}

impl EncryptionKey {
    pub closed spec fn view_bytes(&self) -> Seq<u8> {
        self.bytes@
    }

    /// The key given as 64 hex digits; `None` when the text is not hex or
    /// does not decode to exactly 32 bytes.
    pub fn from_hex(key_hex: &str) -> (r: Option<EncryptionKey>)
        ensures
            match r {
                None => !(hex_decode(encode_utf8(key_hex@)) matches Some(b) && b.len() == 32),
                Some(k) => hex_decode(encode_utf8(key_hex@)) == Some(k.view_bytes())
                    && k.view_bytes().len() == 32,
            },
    {
        let raw = utf8_bytes(key_hex);
        match hex_decode_bytes(&raw) {
            None => None,
            Some(b) => {
                if b.len() != 32 {
                    return None;
                }
                let mut bytes = [0u8; 32];
                let mut i: usize = 0;
                while i < 32
                    invariant
                        b@.len() == 32,
                        i <= 32,
                        forall|j: int| 0 <= j < i ==> bytes@[j] == b@[j],
                    decreases 32 - i,
                {
                    bytes[i] = b[i];
                    i = i + 1;
                }
                assert(bytes@ =~= b@);
                Some(EncryptionKey { bytes })
            },
        }
    }
}

/// Errors of the encryption layer.
#[derive(Debug)]
pub enum CryptoError {
    /// The key is not configured or not 64 hex digits.
    KeyUnavailable,
    /// The plaintext is longer than AES-GCM accepts.
    EncryptionFailed,
    /// The stored value is not base64.
    NotBase64 { label: String },
    /// The stored value has no byte of ciphertext after the 12-byte nonce.
    TooShort { label: String, len: usize },
    /// The tag does not authenticate (corrupted data or another key).
    DecryptionFailed { label: String },
    /// The decrypted bytes are not UTF-8.
    NotUtf8 { label: String },
}

/// The message shown for a crypto error.
pub open spec fn spec_crypto_message(e: CryptoError) -> Seq<char> {
    match e {
        CryptoError::KeyUnavailable => "SECURE_VALUES_KEY is not set or invalid. It must be a 64-character hex string (32 bytes)."@,
        CryptoError::EncryptionFailed => "Encryption failed"@,
        CryptoError::NotBase64 { label } => "Failed to decode stored "@ + label@ + " as base64"@,
        CryptoError::TooShort { label, len } => "Encrypted "@ + label@
            + " is too short: expected at least 13 bytes, got "@ + text::decimal(len as nat),
        CryptoError::DecryptionFailed { label } => "Failed to decrypt "@ + label@
            + " - the data may be corrupted or the encryption key may have changed"@,
        CryptoError::NotUtf8 { label } => "Decrypted "@ + label@ + " is not valid UTF-8"@,
    }
}

impl CryptoError {
    /// The message shown for the error.
    pub fn message(&self) -> (r: String)
        ensures
            r@ == spec_crypto_message(*self),
    {
        match self {
            CryptoError::KeyUnavailable => text::owned(
                "SECURE_VALUES_KEY is not set or invalid. It must be a 64-character hex string (32 bytes).",
            ),
            CryptoError::EncryptionFailed => text::owned("Encryption failed"),
            CryptoError::NotBase64 { label } => {
                let mut s = text::owned("Failed to decode stored ");
                s.append(label.as_str());
                s.append(" as base64");
                s
            },
            CryptoError::TooShort { label, len } => {
                let mut s = text::owned("Encrypted ");
                s.append(label.as_str());
                s.append(" is too short: expected at least 13 bytes, got ");
                let d = text::decimal_string(*len);
                s.append(d.as_str());
                s
            },
            CryptoError::DecryptionFailed { label } => {
                let mut s = text::owned("Failed to decrypt ");
                s.append(label.as_str());
                s.append(
                    " - the data may be corrupted or the encryption key may have changed",
                );
                s
            },
            CryptoError::NotUtf8 { label } => {
                let mut s = text::owned("Decrypted ");
                s.append(label.as_str());
                s.append(" is not valid UTF-8");
                s
            },
        }
    }
}

/// Result of decrypting a stored value, as a mathematical value.
pub enum DecryptOutcome {
    Plain(Seq<u8>),
    NotBase64,
    TooShort(nat),
    Failed,
}

/// Decrypting the stored text `stored` under `key`: base64-decode, then the
/// first 12 bytes are the nonce and the rest the ciphertext with its tag.
pub open spec fn spec_decrypt(key: Seq<u8>, stored: Seq<char>) -> DecryptOutcome {
    match base64_decode(stored) {
        None => DecryptOutcome::NotBase64,
        Some(c) => if c.len() <= 12 {
            DecryptOutcome::TooShort(c.len())
        } else {
            match aes_gcm_open(key, c.take(12), c.skip(12)) {
                Some(p) => DecryptOutcome::Plain(p),
                None => DecryptOutcome::Failed,
            }
        },
    }
}

/// The stored text for plaintext `pt` encrypted under `key` with `nonce`.
/// A stored value decodes from base64 to `12 + n + 16` bytes: the nonce,
/// the `n` bytes of ciphertext and the tag.
pub open spec fn stored_len(stored: Seq<char>, n: nat) -> bool {
    base64_decode(stored) matches Some(b) && b.len() == 12 + n + 16
}

pub open spec fn stored_form(key: Seq<u8>, nonce: Seq<u8>, pt: Seq<u8>) -> Seq<char> {
    base64_encode(nonce + aes_gcm_seal(key, nonce, pt))
}

/// The decrypt outcome agrees with a returned byte result.
pub open spec fn matches_outcome(r: Result<Vec<u8>, CryptoError>, o: DecryptOutcome) -> bool {
    match (r, o) {
        (Ok(v), DecryptOutcome::Plain(p)) => v@ == p,
        (Err(CryptoError::NotBase64 { .. }), DecryptOutcome::NotBase64) => true,
        (Err(CryptoError::TooShort { len, .. }), DecryptOutcome::TooShort(n)) => len == n,
        (Err(CryptoError::DecryptionFailed { .. }), DecryptOutcome::Failed) => true,
        _ => false,
    }
}

/// A plaintext that can be sealed and whose stored form can be encoded
/// without overflowing `usize`.
pub open spec fn encryptable(n: nat) -> bool {
    n <= aes_gcm_p_max() ==> base64_len_fits(n + 28)
}

fn concat_nonce(nonce: &[u8; 12], ct: &[u8]) -> (r: Vec<u8>)
    ensures
        r@ == nonce@ + ct@,
{
    let mut v: Vec<u8> = Vec::new();
    let mut i: usize = 0;
    while i < 12
        invariant
            i <= 12,
            nonce@.len() == 12,
            v@ == nonce@.take(i as int),
        decreases 12 - i,
    {
        v.push(nonce[i]);
        assert(nonce@.take(i + 1) =~= nonce@.take(i as int).push(nonce@[i as int]));
        i = i + 1;
    }
    let mut k: usize = 0;
    while k < ct.len()
        invariant
            nonce@.len() == 12,
            k <= ct@.len(),
            v@ == nonce@ + ct@.take(k as int),
        decreases ct@.len() - k,
    {
        v.push(ct[k]);
        assert(ct@.take(k + 1) =~= ct@.take(k as int).push(ct@[k as int]));
        k = k + 1;
    }
    assert(nonce@.take(12) =~= nonce@);
    assert(ct@.take(k as int) =~= ct@);
    v
}

/// Encrypt bytes as base64(nonce || ciphertext) with a fresh random nonce.
/// Succeeds exactly when AES-GCM accepts the plaintext length, and whatever
/// it returns decrypts back to the plaintext under the same key.
pub fn encrypt_bytes(key: &EncryptionKey, plaintext: &[u8]) -> (r: Result<String, CryptoError>)
    requires
        encryptable(plaintext@.len()),
    ensures
        r is Ok <==> plaintext@.len() <= aes_gcm_p_max(),
        r matches Err(e) ==> e is EncryptionFailed,
        r matches Ok(s) ==> (exists|n: Seq<u8>|
            n.len() == 12 && s@ == stored_form(key.view_bytes(), n, plaintext@)),
        r matches Ok(s) ==> spec_decrypt(key.view_bytes(), s@) == DecryptOutcome::Plain(
            plaintext@,
        ),
        r matches Ok(s) ==> stored_len(s@, plaintext@.len()),
{
    let nonce = fresh_nonce();
    match aes_gcm_encrypt(&key.bytes, &nonce, plaintext) {
        None => Err(CryptoError::EncryptionFailed),
        Some(ct) => {
            let combined = concat_nonce(&nonce, &ct);
            let s = base64_encode_bytes(&combined);
            proof {
                assert(combined@.take(12) =~= nonce@);
                assert(combined@.skip(12) =~= ct@);
            }
            Ok(s)
        },
    }
}

fn split_at_12(c: &[u8]) -> (r: (Vec<u8>, Vec<u8>))
    requires
        c@.len() > 12,
    ensures
        r.0@ == c@.take(12),
        r.1@ == c@.skip(12),
{
    let mut a: Vec<u8> = Vec::new();
    let mut b: Vec<u8> = Vec::new();
    let mut i: usize = 0;
    while i < c.len()
        invariant
            c@.len() > 12,
            i <= c@.len(),
            i <= 12 ==> a@ == c@.take(i as int) && b@.len() == 0,
            i > 12 ==> a@ == c@.take(12) && b@ == c@.subrange(12, i as int),
        decreases c@.len() - i,
    {
        if i < 12 {
            a.push(c[i]);
            assert(c@.take(i + 1) =~= c@.take(i as int).push(c@[i as int]));
        } else {
            b.push(c[i]);
            assert(c@.subrange(12, i + 1) =~= c@.subrange(12, i as int).push(c@[i as int]));
        }
        i = i + 1;
    }
    assert(c@.subrange(12, i as int) =~= c@.skip(12));
    (a, b)
}

/// Decrypt a value stored as base64(nonce || ciphertext). `label` names the
/// kind of value in error messages.
pub fn decrypt_bytes(key: &EncryptionKey, stored_value: &str, label: &str) -> (r: Result<
    Vec<u8>,
    CryptoError,
>)
    ensures
        matches_outcome(r, spec_decrypt(key.view_bytes(), stored_value@)),
        r matches Err(e) ==> crypto_error_label(e) == label@,
{
    let combined = match base64_decode_str(stored_value) {
        None => return Err(CryptoError::NotBase64 { label: text::owned(label) }),
        Some(c) => c,
    };
    if combined.len() <= 12 {
        return Err(CryptoError::TooShort { label: text::owned(label), len: combined.len() });
    }
    let (nonce, ct) = split_at_12(&combined);
    match aes_gcm_decrypt(&key.bytes, &nonce, &ct) {
        Some(p) => Ok(p),
        None => Err(CryptoError::DecryptionFailed { label: text::owned(label) }),
    }
}

/// The label an error carries (empty for errors without one).
pub open spec fn crypto_error_label(e: CryptoError) -> Seq<char> {
    match e {
        CryptoError::NotBase64 { label } => label@,
        CryptoError::TooShort { label, .. } => label@,
        CryptoError::DecryptionFailed { label } => label@,
        CryptoError::NotUtf8 { label } => label@,
        _ => Seq::empty(),
    }
}

/// Decrypting a stored text to a string: the plaintext must also be UTF-8.
pub open spec fn matches_text_outcome(r: Result<String, CryptoError>, o: DecryptOutcome) -> bool {
    match (r, o) {
        (Ok(s), DecryptOutcome::Plain(p)) => valid_utf8(p) && s@ == decode_utf8(p),
        (Err(CryptoError::NotUtf8 { .. }), DecryptOutcome::Plain(p)) => !valid_utf8(p),
        (Err(CryptoError::NotBase64 { .. }), DecryptOutcome::NotBase64) => true,
        (Err(CryptoError::TooShort { len, .. }), DecryptOutcome::TooShort(n)) => len == n,
        (Err(CryptoError::DecryptionFailed { .. }), DecryptOutcome::Failed) => true,
        _ => false,
    }
}

fn encrypt_text(key: &EncryptionKey, plaintext: &str) -> (r: Result<String, CryptoError>)
    requires
        encryptable(encode_utf8(plaintext@).len()),
    ensures
        r is Ok <==> encode_utf8(plaintext@).len() <= aes_gcm_p_max(),
        r matches Err(e) ==> e is EncryptionFailed,
        r matches Ok(s) ==> spec_decrypt_text(key.view_bytes(), s@) == Some(plaintext@),
        r matches Ok(s) ==> stored_len(s@, encode_utf8(plaintext@).len()),
{
    let b = utf8_bytes(plaintext);
    proof {
        vstd::utf8::encode_utf8_valid_utf8(plaintext@);
        vstd::utf8::encode_utf8_decode_utf8(plaintext@);
    }
    encrypt_bytes(key, &b)
}

/// The text a stored value decrypts to under `key`, if it decrypts to UTF-8.
pub open spec fn spec_decrypt_text(key: Seq<u8>, stored: Seq<char>) -> Option<Seq<char>> {
    match spec_decrypt(key, stored) {
        DecryptOutcome::Plain(p) => if valid_utf8(p) {
            Some(decode_utf8(p))
        } else {
            None
        },
        _ => None,
    }
}

fn decrypt_text(key: &EncryptionKey, stored_value: &str, label: &str) -> (r: Result<
    String,
    CryptoError,
>)
    ensures
        matches_text_outcome(r, spec_decrypt(key.view_bytes(), stored_value@)),
        r matches Err(e) ==> crypto_error_label(e) == label@,
{
    let p = decrypt_bytes(key, stored_value, label)?;
    match string_from_utf8(p) {
        Ok(s) => Ok(s),
        Err(_) => Err(CryptoError::NotUtf8 { label: text::owned(label) }),
    }
}

/// Whether a string's stored form can be built (its encoding fits in memory).
pub open spec fn text_encryptable(s: Seq<char>) -> bool {
    encryptable(encode_utf8(s).len())
}

/// Encrypt a TOTP secret for storage as base64(nonce || ciphertext).
pub fn encrypt_totp_secret(key: &EncryptionKey, plaintext: &str) -> (r: Result<
    String,
    CryptoError,
>)
    requires
        text_encryptable(plaintext@),
    ensures
        r is Ok <==> encode_utf8(plaintext@).len() <= aes_gcm_p_max(),
        r matches Err(e) ==> e is EncryptionFailed,
        r matches Ok(s) ==> spec_decrypt_text(key.view_bytes(), s@) == Some(plaintext@),
        r matches Ok(s) ==> stored_len(s@, encode_utf8(plaintext@).len()),
{
    encrypt_text(key, plaintext)
}

/// Decrypt a TOTP secret stored as base64(nonce || ciphertext).
pub fn decrypt_totp_secret(key: &EncryptionKey, stored_value: &str) -> (r: Result<
    String,
    CryptoError,
>)
    ensures
        matches_text_outcome(r, spec_decrypt(key.view_bytes(), stored_value@)),
        r matches Err(e) ==> crypto_error_label(e) == "TOTP secret"@,
{
    decrypt_text(key, stored_value, "TOTP secret")
}

/// Encrypt a single-use token (verification, password reset) for storage.
pub fn encrypt_token(key: &EncryptionKey, plaintext: &str) -> (r: Result<String, CryptoError>)
    requires
        text_encryptable(plaintext@),
    ensures
        r is Ok <==> encode_utf8(plaintext@).len() <= aes_gcm_p_max(),
        r matches Ok(s) ==> spec_decrypt_text(key.view_bytes(), s@) == Some(plaintext@),
        r matches Ok(s) ==> stored_len(s@, encode_utf8(plaintext@).len()),
{
    encrypt_text(key, plaintext)
}

/// Decrypt a single-use token from storage.
pub fn decrypt_token(key: &EncryptionKey, stored_value: &str) -> (r: Result<String, CryptoError>)
    ensures
        matches_text_outcome(r, spec_decrypt(key.view_bytes(), stored_value@)),
        r matches Err(e) ==> crypto_error_label(e) == "token"@,
{
    decrypt_text(key, stored_value, "token")
}

/// Encrypt a settings value for a row marked encrypted.
pub fn encrypt_value(key: &EncryptionKey, plaintext: &str) -> (r: Result<String, CryptoError>)
    requires
        text_encryptable(plaintext@),
    ensures
        r is Ok <==> encode_utf8(plaintext@).len() <= aes_gcm_p_max(),
        r matches Ok(s) ==> spec_decrypt_text(key.view_bytes(), s@) == Some(plaintext@),
        r matches Ok(s) ==> stored_len(s@, encode_utf8(plaintext@).len()),
{
    encrypt_text(key, plaintext)
}

/// Decrypt a settings value produced by `encrypt_value`.
pub fn decrypt_value(key: &EncryptionKey, stored_value: &str) -> (r: Result<String, CryptoError>)
    ensures
        matches_text_outcome(r, spec_decrypt(key.view_bytes(), stored_value@)),
        r matches Err(e) ==> crypto_error_label(e) == "setting value"@,
{
    decrypt_text(key, stored_value, "setting value")
}

/// Decrypt a PII field for display; a field that cannot be read shows
/// `[unreadable]` instead of failing the whole listing.
pub fn decrypt_field(key: &EncryptionKey, ciphertext: &str) -> (r: String)
    ensures
        match spec_decrypt(key.view_bytes(), ciphertext@) {
            DecryptOutcome::Plain(p) => if valid_utf8(p) {
                r@ == decode_utf8(p)
            } else {
                r@ == "[unreadable]"@
            },
            _ => r@ == "[unreadable]"@,
        },
{
    match decrypt_value(key, ciphertext) {
        Ok(s) => s,
        Err(_) => text::owned("[unreadable]"),
    }
}

// ---------------------------------------------------------------------------
// Phone token
// ---------------------------------------------------------------------------

/// The dedupe token of a phone number: lower-case hex of
/// HMAC-SHA256(key, "phone-verify:" || e164).
pub open spec fn spec_phone_token(key: Seq<u8>, e164: Seq<char>) -> Seq<char> {
    hex_encode(hmac_sha256(key, encode_utf8("phone-verify:"@) + encode_utf8(e164)))
}

/// Deterministic, non-reversible token for a phone number, keyed by the
/// encryption key with a domain-separation label; the same number always
/// maps to the same token.
pub fn hmac_phone(key: &EncryptionKey, e164: &str) -> (r: String)
    ensures
        r@ == spec_phone_token(key.view_bytes(), e164@),
{
    let label = utf8_bytes("phone-verify:");
    let num = utf8_bytes(e164);
    let mut msg = label;
    let mut i: usize = 0;
    let ghost l = msg@;
    while i < num.len()
        invariant
            i <= num@.len(),
            msg@ == l + num@.take(i as int),
        decreases num@.len() - i,
    {
        msg.push(num[i]);
        assert(num@.take(i + 1) =~= num@.take(i as int).push(num@[i as int]));
        i = i + 1;
    }
    assert(num@.take(i as int) =~= num@);
    let key_bytes = key.bytes;
    let tag = hmac_sha256_tag(&key_bytes, &msg);
    hex_encode_bytes(&tag)
}

/// Check the configured key at startup: `Ok` with the key when the text is
/// 64 hex digits, otherwise `KeyUnavailable` so that a misconfigured key
/// fails fast.
pub fn validate_encryption_key(key_hex: Option<&str>) -> (r: Result<EncryptionKey, CryptoError>)
    ensures
        match key_hex {
            None => r matches Err(CryptoError::KeyUnavailable),
            Some(h) => match r {
                Ok(k) => hex_decode(encode_utf8(h@)) == Some(k.view_bytes()) && k.view_bytes().len()
                    == 32,
                Err(e) => e is KeyUnavailable && !(hex_decode(encode_utf8(h@)) matches Some(b)
                    && b.len() == 32),
            },
        },
{
    match key_hex {
        None => Err(CryptoError::KeyUnavailable),
        Some(h) => match EncryptionKey::from_hex(h) {
            Some(k) => Ok(k),
            None => Err(CryptoError::KeyUnavailable),
        },
    }
}

} // verus!

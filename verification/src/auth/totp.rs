//! Time-based one-time passwords (SHA-1, six digits, 30-second steps) for
//! the MFA flows: secret generation and code checks.
use vstd::prelude::*;
use totp_rs::{Algorithm, Secret, TOTP};
use crate::text;

verus! {

/// The issuer shown by authenticator apps.
pub const ISSUER: &'static str = "PersonalSite";

/// Digits of a code.
pub const DIGITS: usize = 6;

/// Seconds per time step.
pub const STEP: u64 = 30;

/// Length in bytes of a generated secret.
pub const SECRET_BYTES: usize = 20;

/// Skew of the lenient check: one step either side of the current one.
pub const LENIENT_SKEW: u8 = 1;

/// The HMAC hash a TOTP is computed with.
#[derive(Debug, Clone, Copy, PartialEq, Eq, Structural)]
pub enum TotpAlgorithm {
    Sha1,
    Sha256,
    Sha512,
}

/// The unpadded RFC 4648 base32 text of a byte string.
pub uninterp spec fn base32_encoded(bytes: Seq<u8>) -> Seq<char>;

/// The bytes of an unpadded RFC 4648 base32 text; `None` when it does not
/// decode.
pub uninterp spec fn base32_decoded(text: Seq<char>) -> Option<Seq<u8>>;

/// Calls `Secret::generate_secret` and takes its bytes (`Secret::to_bytes`
/// of a raw secret): 20 random bytes, as its source shows; `to_bytes` of a
/// raw secret never fails.
#[verifier::external_body]
fn random_secret_bytes() -> (r: Result<Vec<u8>, String>)
    ensures
        r is Ok,
        r matches Ok(b) ==> b@.len() == SECRET_BYTES,
{
    Secret::generate_secret().to_bytes().map_err(|e| e.to_string())
}

/// Calls `Secret::to_encoded` on a raw secret and renders the encoded text.
/// The text is named; it decodes back to the bytes (the crate's unpadded
/// base32 codec round-trips, as its tests check).
#[verifier::external_body]
fn encode_secret(bytes: &Vec<u8>) -> (r: String)
    ensures
        r@ == base32_encoded(bytes@),
        base32_decoded(r@) == Some(bytes@),
{
    Secret::Raw(bytes.clone()).to_encoded().to_string()
}

/// Calls `Secret::to_bytes` on an encoded secret: its bytes, or the parse
/// error's text when it is not base32.
#[verifier::external_body]
fn decode_secret(text: &str) -> (r: Result<Vec<u8>, String>)
    ensures
        r is Ok <==> base32_decoded(text@) is Some,
        r matches Ok(b) ==> base32_decoded(text@) == Some(b@),
{
    Secret::Encoded(text.to_string()).to_bytes().map_err(|e| e.to_string())
}

/// Calls `TOTP::new`, keeping only whether it accepts the parameters. As
/// its source shows (`rfc::assert_digits`, `rfc::assert_secret_length`), it
/// is refused exactly when the digits are outside 6 to 8, the secret is
/// shorter than 16 bytes, or the issuer or the account name holds a `:`.
/// The error's text is not stated.
#[verifier::external_body]
fn sha1_totp(
    alg: TotpAlgorithm,
    digits: usize,
    skew: u8,
    step: u64,
    secret: &Vec<u8>,
    issuer: &str,
    account_name: &str,
) -> (r: Result<(), String>)
    ensures
        r is Ok <==> (6 <= digits <= 8 && secret@.len() >= 16 && !issuer@.contains(':')
            && !account_name@.contains(':')),
{
    let algorithm = match alg {
        TotpAlgorithm::Sha1 => Algorithm::SHA1,
        TotpAlgorithm::Sha256 => Algorithm::SHA256,
        TotpAlgorithm::Sha512 => Algorithm::SHA512,
    };
    TOTP::new(algorithm, digits, skew, step, secret.clone(), Some(issuer.to_string()), account_name.to_string())
        .map(|_| ()).map_err(|e| e.to_string())
}

/// The `otpauth://` URL that `TOTP::get_url` gives for the TOTP of these
/// parameters.
pub uninterp spec fn otpauth_text(
    alg: TotpAlgorithm,
    digits: usize,
    step: u64,
    issuer: Seq<char>,
    secret: Seq<u8>,
    account: Seq<char>,
) -> Seq<char>;

/// The QR code (a base64 PNG) that `TOTP::get_qr_base64` draws for the URL
/// of the TOTP of these parameters; `None` when the URL does not fit a QR
/// code or the PNG cannot be encoded.
pub uninterp spec fn qr_code_of(
    alg: TotpAlgorithm,
    digits: usize,
    step: u64,
    issuer: Seq<char>,
    secret: Seq<u8>,
    account: Seq<char>,
) -> Option<Seq<char>>;

/// The code `TOTP::generate` gives for a time in the time step numbered
/// `counter` (it depends on the time only through `time / step`).
pub uninterp spec fn totp_code(alg: TotpAlgorithm, digits: usize, secret: Seq<u8>, counter: u64) -> Seq<
    char,
>;

/// `TOTP::check` may run at time `t`: `t / step - skew` does not underflow
/// and the last step checked, `(t / step + skew) * step`, fits in `u64`.
pub open spec fn check_range(t: u64, step: u64, skew: u8) -> bool {
    step > 0 && skew as int <= t / step && t / step + skew as int <= u64::MAX / step
}

/// What `TOTP::check` answers at time `t`: whether the code is the code of
/// one of the steps from `t / step - skew` to `t / step + skew`.
pub open spec fn window_accepts(
    alg: TotpAlgorithm,
    digits: usize,
    step: u64,
    skew: u8,
    secret: Seq<u8>,
    code: Seq<char>,
    t: u64,
) -> bool {
    exists|k: int|
        t / step - skew <= k <= t / step + skew && #[trigger] totp_code(alg, digits, secret, k as u64)
            == code
}

/// Calls `TOTP::get_url` on the TOTP of these parameters. The URL is named;
/// it does not depend on the skew.
#[verifier::external_body]
fn otpauth_url(alg: TotpAlgorithm, digits: usize, skew: u8, step: u64, issuer: &str, secret: &Vec<u8>, account: &str) -> (r: String)
    ensures
        r@ == otpauth_text(alg, digits, step, issuer@, secret@, account@),
{
    let algorithm = match alg {
        TotpAlgorithm::Sha1 => Algorithm::SHA1,
        TotpAlgorithm::Sha256 => Algorithm::SHA256,
        TotpAlgorithm::Sha512 => Algorithm::SHA512,
    };
    TOTP::new_unchecked(algorithm, digits, skew, step, secret.clone(), Some(issuer.to_string()), account.to_string())
        .get_url()
}

/// Calls `TOTP::get_qr_base64` on the TOTP of these parameters: the QR code
/// of its URL, or the drawing error. The image is named; it does not depend
/// on the skew.
#[verifier::external_body]
fn qr_base64(alg: TotpAlgorithm, digits: usize, skew: u8, step: u64, issuer: &str, secret: &Vec<u8>, account: &str) -> (r: Result<String, String>)
    ensures
        match r {
            Ok(q) => qr_code_of(alg, digits, step, issuer@, secret@, account@) == Some(q@),
            Err(_) => qr_code_of(alg, digits, step, issuer@, secret@, account@) is None,
        },
{
    let algorithm = match alg {
        TotpAlgorithm::Sha1 => Algorithm::SHA1,
        TotpAlgorithm::Sha256 => Algorithm::SHA256,
        TotpAlgorithm::Sha512 => Algorithm::SHA512,
    };
    TOTP::new_unchecked(algorithm, digits, skew, step, secret.clone(), Some(issuer.to_string()), account.to_string())
        .get_qr_base64()
}

/// Calls `std::time::UNIX_EPOCH.elapsed()`: the current Unix time in whole
/// seconds, `None` when the clock is before the epoch. It depends on the
/// clock, so nothing is claimed of it.
#[verifier::external_body]
fn unix_now() -> (r: Option<u64>) {
    std::time::UNIX_EPOCH.elapsed().ok().map(|d| d.as_secs())
}

/// Calls `TOTP::check` at time `time`. As its source shows, it compares the
/// code with `generate` at the steps `time / step - skew` to
/// `time / step + skew`; `generate` needs at most 9 digits (`10.pow`), and
/// the range keeps the step arithmetic from wrapping. The issuer and the
/// account name play no part.
#[verifier::external_body]
fn check_at(
    alg: TotpAlgorithm,
    digits: usize,
    step: u64,
    skew: u8,
    secret: &Vec<u8>,
    issuer: &str,
    account: &str,
    code: &str,
    time: u64,
) -> (r: bool)
    requires
        6 <= digits <= 8,
        check_range(time, step, skew),
    ensures
        r == (exists|k: int| time / step - skew <= k <= time / step + skew
            && #[trigger] totp_code(alg, digits, secret@, k as u64) == code@),
{
    let algorithm = match alg {
        TotpAlgorithm::Sha1 => Algorithm::SHA1,
        TotpAlgorithm::Sha256 => Algorithm::SHA256,
        TotpAlgorithm::Sha512 => Algorithm::SHA512,
    };
    TOTP::new_unchecked(algorithm, digits, skew, step, secret.clone(), Some(issuer.to_string()), account.to_string())
        .check(code, time)
}

proof fn lemma_issuer_has_no_colon()
    ensures
        !ISSUER@.contains(':'),
{
    reveal_strlit("PersonalSite");
    assert(ISSUER@ == "PersonalSite"@);
    assert forall|i: int| 0 <= i < ISSUER@.len() implies ISSUER@[i] != ':' by {}
}

/// A freshly generated secret, as stored and as shown to the user.
pub struct TotpSetup {
    /// Base32-encoded secret for storage.
    pub secret_base32: String,
    /// QR code as a base64-encoded PNG.
    pub qr_code_base64: String,
    /// `otpauth://` URL for manual entry.
    pub otpauth_url: String,
}

/// Whether `s` starts with `prefix`.
pub open spec fn starts_with(s: Seq<char>, prefix: Seq<char>) -> bool {
    s.len() >= prefix.len() && s.take(prefix.len() as int) == prefix
}

/// `prefix` followed by `detail`.
fn prefixed(prefix: &str, detail: &str) -> (r: String)
    ensures
        r@ == prefix@ + detail@,
{
    let mut m = text::owned(prefix);
    m.append(detail);
    m
}

/// `s` is the setup of some 20-byte secret for the account `email`: the
/// stored text is the secret in base32, and the URL and QR code are the
/// secret's and the account's.
pub open spec fn is_setup_for(s: TotpSetup, email: Seq<char>) -> bool {
    exists|b: Seq<u8>|
        {
            &&& b.len() == SECRET_BYTES
            &&& s.secret_base32@ == base32_encoded(b)
            &&& base32_decoded(s.secret_base32@) == Some(b)
            &&& s.otpauth_url@ == otpauth_text(TotpAlgorithm::Sha1, DIGITS, STEP, ISSUER@, b, email)
            &&& qr_code_of(TotpAlgorithm::Sha1, DIGITS, STEP, ISSUER@, b, email) == Some(
                s.qr_code_base64@,
            )
        }
}

/// Some 20-byte secret of the account `email` has a URL that does not fit
/// a QR code.
pub open spec fn qr_may_fail(email: Seq<char>) -> bool {
    exists|b: Seq<u8>|
        b.len() == SECRET_BYTES && qr_code_of(TotpAlgorithm::Sha1, DIGITS, STEP, ISSUER@, b, email) is None
}

/// Generate a new 20-byte secret and its QR code and URL for the account
/// `email`. Refused when the email holds a `:` (an account name the URL
/// cannot carry); otherwise it fails only when the URL of the drawn secret
/// does not fit a QR code. The stored text is the base32 form of the
/// secret, and the URL and QR code are those of the secret and the email.
pub fn generate_secret(email: &str) -> (r: Result<TotpSetup, String>)
    ensures
        email@.contains(':') ==> (r matches Err(m) && starts_with(m@, "Failed to create TOTP: "@)),
        !email@.contains(':') ==> (r matches Err(m) ==> starts_with(
            m@,
            "Failed to generate QR code: "@,
        ) && qr_may_fail(email@)),
        r matches Ok(s) ==> is_setup_for(s, email@),
{
    let secret_bytes = match random_secret_bytes() {
        Ok(b) => b,
        Err(e) => return Err(prefixed("Failed to convert secret to bytes: ", e.as_str())),
    };
    let secret_base32 = encode_secret(&secret_bytes);
    proof {
        lemma_issuer_has_no_colon();
    }
    match sha1_totp(TotpAlgorithm::Sha1, DIGITS, LENIENT_SKEW, STEP, &secret_bytes, ISSUER, email) {
        Ok(()) => {},
        Err(e) => {
            let m = prefixed("Failed to create TOTP: ", e.as_str());
            proof {
                reveal_strlit("Failed to create TOTP: ");
                assert(m@.take(23) =~= "Failed to create TOTP: "@);
            }
            return Err(m);
        },
    }
    let qr_code_base64 = match qr_base64(
        TotpAlgorithm::Sha1,
        DIGITS,
        LENIENT_SKEW,
        STEP,
        ISSUER,
        &secret_bytes,
        email,
    ) {
        Ok(q) => q,
        Err(e) => {
            let m = prefixed("Failed to generate QR code: ", e.as_str());
            proof {
                reveal_strlit("Failed to generate QR code: ");
                assert(m@.take(28) =~= "Failed to generate QR code: "@);
            }
            return Err(m);
        },
    };
    let otpauth_url = otpauth_url(
        TotpAlgorithm::Sha1,
        DIGITS,
        LENIENT_SKEW,
        STEP,
        ISSUER,
        &secret_bytes,
        email,
    );
    Ok(TotpSetup { secret_base32, qr_code_base64, otpauth_url })
}

/// Whether a code check refuses to run: the stored secret is not base32,
/// decodes to fewer than 16 bytes, or the account name holds a `:`.
pub open spec fn check_refused(secret_base32: Seq<char>, email: Seq<char>) -> bool {
    match base32_decoded(secret_base32) {
        None => true,
        Some(b) => b.len() < 16 || email.contains(':'),
    }
}

/// Whether the code is accepted at the clock value `now`: the clock was
/// read, the time lies in the range the check can run in, and the code is
/// that of the stored secret at one of the steps within `skew` of the
/// current one (SHA-1, six digits, 30-second steps).
pub open spec fn code_accepted_at(secret_base32: Seq<char>, code: Seq<char>, skew: u8, now: Option<u64>) -> bool {
    now matches Some(t) && (check_range(t, STEP, skew) && (base32_decoded(secret_base32) matches Some(
        b,
    ) && window_accepts(TotpAlgorithm::Sha1, DIGITS, STEP, skew, b, code, t)))
}

/// Check a code against a stored secret at the clock value `now` (`None`
/// when the clock could not be read), accepting the steps within `skew` of
/// the current one. An error exactly when [`check_refused`]; otherwise the
/// verdict of [`code_accepted_at`]. A clock value outside the range the
/// check can run in gives no match.
pub fn verify_code_at(secret_base32: &str, code: &str, email: &str, skew: u8, now: Option<u64>) -> (r:
    Result<bool, String>)
    ensures
        r is Err <==> check_refused(secret_base32@, email@),
        r matches Err(m) ==> (base32_decoded(secret_base32@) is None ==> starts_with(
            m@,
            "Failed to decode secret: "@,
        )),
        r matches Err(m) ==> (base32_decoded(secret_base32@) is Some ==> starts_with(
            m@,
            "Failed to create TOTP: "@,
        )),
        r matches Ok(v) ==> v == code_accepted_at(secret_base32@, code@, skew, now),
{
    let secret_bytes = match decode_secret(secret_base32) {
        Ok(b) => b,
        Err(e) => {
            let m = prefixed("Failed to decode secret: ", e.as_str());
            proof {
                reveal_strlit("Failed to decode secret: ");
                assert(m@.take(25) =~= "Failed to decode secret: "@);
            }
            return Err(m);
        },
    };
    proof {
        lemma_issuer_has_no_colon();
    }
    match sha1_totp(TotpAlgorithm::Sha1, DIGITS, skew, STEP, &secret_bytes, ISSUER, email) {
        Ok(()) => {},
        Err(e) => {
            let m = prefixed("Failed to create TOTP: ", e.as_str());
            proof {
                reveal_strlit("Failed to create TOTP: ");
                assert(m@.take(23) =~= "Failed to create TOTP: "@);
            }
            return Err(m);
        },
    }
    match now {
        Some(t) => {
            if (skew as u64) <= t / STEP && t / STEP <= u64::MAX / STEP - (skew as u64) {
                Ok(check_at(TotpAlgorithm::Sha1, DIGITS, STEP, skew, &secret_bytes, ISSUER, email, code, t))
            } else {
                Ok(false)
            }
        },
        None => Ok(false),
    }
}

/// Check a code against a stored secret at the current time, accepting the
/// steps within `skew` of the current one. An error exactly when
/// [`check_refused`]; the verdict is [`verify_code_at`]'s at the clock value
/// read, so an accepted code is the secret's code near some time.
pub fn verify_code_with_skew(secret_base32: &str, code: &str, email: &str, skew: u8) -> (r: Result<
    bool,
    String,
>)
    ensures
        r is Err <==> check_refused(secret_base32@, email@),
        r matches Err(m) ==> (base32_decoded(secret_base32@) is None ==> starts_with(
            m@,
            "Failed to decode secret: "@,
        )),
        r == Ok::<bool, String>(true) ==> exists|t: u64|
            code_accepted_at(secret_base32@, code@, skew, Some(t)),
{
    let now = unix_now();
    let r = verify_code_at(secret_base32, code, email, skew, now);
    proof {
        if r == Ok::<bool, String>(true) {
            let t = now->0;
            assert(code_accepted_at(secret_base32@, code@, skew, Some(t)));
        }
    }
    r
}

/// Check a code with one step of grace on either side.
pub fn verify_code(secret_base32: &str, code: &str, email: &str) -> (r: Result<bool, String>)
    ensures
        r is Err <==> check_refused(secret_base32@, email@),
        r == Ok::<bool, String>(true) ==> exists|t: u64|
            code_accepted_at(secret_base32@, code@, LENIENT_SKEW, Some(t)),
{
    verify_code_with_skew(secret_base32, code, email, LENIENT_SKEW)
}

/// Check a code with no grace period, for sensitive operations such as a
/// password reset.
pub fn verify_code_strict(secret_base32: &str, code: &str, email: &str) -> (r: Result<bool, String>)
    ensures
        r is Err <==> check_refused(secret_base32@, email@),
        r == Ok::<bool, String>(true) ==> exists|t: u64| code_accepted_at(secret_base32@, code@, 0, Some(t)),
{
    verify_code_with_skew(secret_base32, code, email, 0)
}

/// At one and the same time, a code the strict check accepts is accepted by
/// the lenient one too (away from the first step after the epoch and the
/// last step `u64` holds, where the lenient window does not fit).
pub proof fn strict_acceptance_implies_lenient(secret_base32: Seq<char>, code: Seq<char>, t: u64)
    requires
        code_accepted_at(secret_base32, code, 0, Some(t)),
        check_range(t, STEP, LENIENT_SKEW),
    ensures
        code_accepted_at(secret_base32, code, LENIENT_SKEW, Some(t)),
{
    let b = base32_decoded(secret_base32)->0;
    let k = choose|k: int|
        t / STEP - 0u8 <= k <= t / STEP + 0u8 && #[trigger] totp_code(TotpAlgorithm::Sha1, DIGITS, b, k as u64)
            == code;
    assert(t / STEP - LENIENT_SKEW <= k <= t / STEP + LENIENT_SKEW);
    assert(window_accepts(TotpAlgorithm::Sha1, DIGITS, STEP, LENIENT_SKEW, b, code, t));
}

/// The lenient check accepts the codes of the previous, the current and the
/// next step.
pub proof fn lenient_window_spans_three_steps(secret_base32: Seq<char>, code: Seq<char>, t: u64)
    requires
        base32_decoded(secret_base32) matches Some(b) && (code == totp_code(
            TotpAlgorithm::Sha1,
            DIGITS,
            b,
            (t / STEP - 1) as u64,
        ) || code == totp_code(TotpAlgorithm::Sha1, DIGITS, b, (t / STEP) as u64) || code == totp_code(
            TotpAlgorithm::Sha1,
            DIGITS,
            b,
            (t / STEP + 1) as u64,
        )),
        check_range(t, STEP, LENIENT_SKEW),
    ensures
        code_accepted_at(secret_base32, code, LENIENT_SKEW, Some(t)),
{
    let b = base32_decoded(secret_base32)->0;
    if code == totp_code(TotpAlgorithm::Sha1, DIGITS, b, (t / STEP - 1) as u64) {
        assert(window_accepts(TotpAlgorithm::Sha1, DIGITS, STEP, LENIENT_SKEW, b, code, t)) by {
            let k: int = t / STEP - 1;
            assert(totp_code(TotpAlgorithm::Sha1, DIGITS, b, k as u64) == code);
        }
    } else if code == totp_code(TotpAlgorithm::Sha1, DIGITS, b, (t / STEP) as u64) {
        assert(window_accepts(TotpAlgorithm::Sha1, DIGITS, STEP, LENIENT_SKEW, b, code, t)) by {
            let k: int = (t / STEP) as int;
            assert(totp_code(TotpAlgorithm::Sha1, DIGITS, b, k as u64) == code);
        }
    } else {
        assert(window_accepts(TotpAlgorithm::Sha1, DIGITS, STEP, LENIENT_SKEW, b, code, t)) by {
            let k: int = t / STEP + 1;
            assert(totp_code(TotpAlgorithm::Sha1, DIGITS, b, k as u64) == code);
        }
    }
}

/// A secret that [`generate_secret`] produced for an account can always be
/// checked against for that account: the check never refuses to run.
pub proof fn generated_secret_is_checkable(secret_base32: Seq<char>, email: Seq<char>)
    requires
        base32_decoded(secret_base32) matches Some(b) && b.len() == SECRET_BYTES,
        !email.contains(':'),
    ensures
        !check_refused(secret_base32, email),
{
}

} // verus!

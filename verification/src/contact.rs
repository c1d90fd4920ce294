//! The contact form: which submissions are accepted, and the answer to each
//! outcome of a submission.
use vstd::prelude::*;
use crate::errors::AppError;
use crate::text;

verus! {

/// Limits, in bytes, on the form's fields.
pub const MAX_NAME_BYTES: usize = 100;

pub const MAX_EMAIL_BYTES: usize = 254;

pub const MAX_SUBJECT_BYTES: usize = 200;

pub const MAX_MESSAGE_BYTES: usize = 5000;

pub struct ContactFormRequest {
    pub name: String,
    pub email: String,
    pub subject: String,
    pub message: String,
}

pub struct ContactFormResponse {
    pub success: bool,
    pub message: String,
}

/// A field is acceptable when it holds more than white space and its
/// UTF-8 encoding fits the limit.
pub open spec fn field_ok(s: Seq<char>, max_bytes: nat) -> bool {
    text::trim(s).len() > 0 && text::utf8_len(s) <= max_bytes
}

/// Whether every field of the submission is acceptable.
pub open spec fn spec_fields_valid(req: ContactFormRequest) -> bool {
    &&& field_ok(req.name@, MAX_NAME_BYTES as nat)
    &&& field_ok(req.email@, MAX_EMAIL_BYTES as nat)
    &&& field_ok(req.subject@, MAX_SUBJECT_BYTES as nat)
    &&& field_ok(req.message@, MAX_MESSAGE_BYTES as nat)
}

fn check_field(s: &str, max_bytes: usize) -> (r: bool)
    requires
        max_bytes < usize::MAX,
    ensures
        r == field_ok(s@, max_bytes as nat),
{
    let v = text::chars_of(s);
    let t = text::trim_chars(&v);
    if t.len() == 0 {
        return false;
    }
    text::utf8_len_capped(&v, max_bytes + 1) <= max_bytes
}

/// A submission passes the field checks exactly when each of its four
/// fields (name, email, subject, message) holds more than white space and
/// stays within its byte limit: a blank subject is refused like any other
/// blank field.
pub proof fn every_field_is_required(req: ContactFormRequest)
    ensures
        spec_fields_valid(req) ==> text::trim(req.name@).len() > 0,
        spec_fields_valid(req) ==> text::trim(req.email@).len() > 0,
        spec_fields_valid(req) ==> text::trim(req.subject@).len() > 0,
        spec_fields_valid(req) ==> text::trim(req.message@).len() > 0,
        spec_fields_valid(req) ==> text::utf8_len(req.name@) <= MAX_NAME_BYTES && text::utf8_len(
            req.email@,
        ) <= MAX_EMAIL_BYTES && text::utf8_len(req.subject@) <= MAX_SUBJECT_BYTES && text::utf8_len(
            req.message@,
        ) <= MAX_MESSAGE_BYTES,
        (text::trim(req.name@).len() > 0 && text::trim(req.email@).len() > 0 && text::trim(
            req.subject@,
        ).len() > 0 && text::trim(req.message@).len() > 0 && text::utf8_len(req.name@)
            <= MAX_NAME_BYTES && text::utf8_len(req.email@) <= MAX_EMAIL_BYTES && text::utf8_len(
            req.subject@,
        ) <= MAX_SUBJECT_BYTES && text::utf8_len(req.message@) <= MAX_MESSAGE_BYTES)
            ==> spec_fields_valid(req),
{
}

/// Check the lengths and contents of the submission's fields.
pub fn fields_valid(req: &ContactFormRequest) -> (r: bool)
    ensures
        r == spec_fields_valid(*req),
        r == (text::trim(req.name@).len() > 0 && text::trim(req.email@).len() > 0 && text::trim(
            req.subject@,
        ).len() > 0 && text::trim(req.message@).len() > 0 && text::utf8_len(req.name@)
            <= MAX_NAME_BYTES && text::utf8_len(req.email@) <= MAX_EMAIL_BYTES && text::utf8_len(
            req.subject@,
        ) <= MAX_SUBJECT_BYTES && text::utf8_len(req.message@) <= MAX_MESSAGE_BYTES),
{
    check_field(req.name.as_str(), MAX_NAME_BYTES) && check_field(req.email.as_str(), MAX_EMAIL_BYTES)
        && check_field(req.subject.as_str(), MAX_SUBJECT_BYTES) && check_field(
        req.message.as_str(),
        MAX_MESSAGE_BYTES,
    )
}

/// What became of a submission.
#[derive(Debug, PartialEq, Eq, Structural)]
pub enum ContactOutcome {
    /// The contact form is switched off.
    Disabled,
    /// A field is empty or too long.
    InvalidInput,
    /// The address is not an email address.
    InvalidEmail,
    /// The sender's address already submitted within the last day.
    RateLimited,
    Sent,
    SendFailed,
}

/// The outcome of the checks that precede sending, in the order they run:
/// `None` when the message is to be sent.
pub open spec fn spec_precheck(
    enabled: bool,
    fields_ok: bool,
    email_ok: bool,
    recently_submitted: bool,
) -> Option<ContactOutcome> {
    if !enabled {
        Some(ContactOutcome::Disabled)
    } else if !fields_ok {
        Some(ContactOutcome::InvalidInput)
    } else if !email_ok {
        Some(ContactOutcome::InvalidEmail)
    } else if recently_submitted {
        Some(ContactOutcome::RateLimited)
    } else {
        None
    }
}

/// Refuse a submission whose client address does not parse as an IP
/// address (`ip_parses`, from the server's parse); it is answered as an
/// authentication error.
pub fn check_client_ip(ip_parses: bool) -> (r: Result<(), AppError>)
    ensures
        r is Ok <==> ip_parses,
        r matches Err(e) ==> e matches AppError::AuthError(m) && m@ == "Invalid IP address"@,
{
    if ip_parses {
        Ok(())
    } else {
        Err(AppError::AuthError(text::owned("Invalid IP address")))
    }
}

/// Decide whether a submission goes on to be sent. `email_ok` is the
/// address check's verdict and `recently_submitted` the rate limiter's.
pub fn precheck(enabled: bool, fields_ok: bool, email_ok: bool, recently_submitted: bool) -> (r:
    Option<ContactOutcome>)
    ensures
        r == spec_precheck(enabled, fields_ok, email_ok, recently_submitted),
{
    if !enabled {
        Some(ContactOutcome::Disabled)
    } else if !fields_ok {
        Some(ContactOutcome::InvalidInput)
    } else if !email_ok {
        Some(ContactOutcome::InvalidEmail)
    } else if recently_submitted {
        Some(ContactOutcome::RateLimited)
    } else {
        None
    }
}

pub open spec fn spec_status(o: ContactOutcome) -> u16 {
    match o {
        ContactOutcome::Disabled => 404,
        ContactOutcome::InvalidInput => 400,
        ContactOutcome::InvalidEmail => 400,
        ContactOutcome::RateLimited => 429,
        ContactOutcome::Sent => 200,
        ContactOutcome::SendFailed => 500,
    }
}

pub open spec fn spec_message(o: ContactOutcome) -> Seq<char> {
    match o {
        ContactOutcome::Disabled => "Not found"@,
        ContactOutcome::InvalidInput => "Invalid input. Please check your form fields."@,
        ContactOutcome::InvalidEmail => "Invalid email address."@,
        ContactOutcome::RateLimited => "You have recently submitted this contact form."@,
        ContactOutcome::Sent => "Thank you for your message! I'll get back to you soon."@,
        ContactOutcome::SendFailed => "Failed to send message. Please try again later."@,
    }
}

/// The HTTP status and body that answer an outcome. Only a sent message
/// reports success.
pub fn contact_response(o: ContactOutcome) -> (r: (u16, ContactFormResponse))
    ensures
        r.0 == spec_status(o),
        r.1.success == (o == ContactOutcome::Sent),
        r.1.message@ == spec_message(o),
{
    match o {
        ContactOutcome::Disabled => (
            404,
            ContactFormResponse { success: false, message: text::owned("Not found") },
        ),
        ContactOutcome::InvalidInput => (
            400,
            ContactFormResponse {
                success: false,
                message: text::owned("Invalid input. Please check your form fields."),
            },
        ),
        ContactOutcome::InvalidEmail => (
            400,
            ContactFormResponse { success: false, message: text::owned("Invalid email address.") },
        ),
        ContactOutcome::RateLimited => (
            429,
            ContactFormResponse {
                success: false,
                message: text::owned("You have recently submitted this contact form."),
            },
        ),
        ContactOutcome::Sent => (
            200,
            ContactFormResponse {
                success: true,
                message: text::owned("Thank you for your message! I'll get back to you soon."),
            },
        ),
        ContactOutcome::SendFailed => (
            500,
            ContactFormResponse {
                success: false,
                message: text::owned("Failed to send message. Please try again later."),
            },
        ),
    }
}

/// The rate-limit key of a sender's address.
pub fn contact_key(ip: &str) -> (r: String)
    ensures
        r@ == "contact_form:"@ + ip@,
{
    let mut k = text::owned("contact_form:");
    k.append(ip);
    k
}

/// A submission is sent only when the form is on, every field is
/// acceptable, the address passed its check and the sender is not rate
/// limited; every refusal is answered with a failure status.
pub proof fn only_clean_submissions_are_sent(
    enabled: bool,
    fields_ok: bool,
    email_ok: bool,
    recently_submitted: bool,
)
    ensures
        spec_precheck(enabled, fields_ok, email_ok, recently_submitted) is None <==> (enabled
            && fields_ok && email_ok && !recently_submitted),
        spec_precheck(enabled, fields_ok, email_ok, recently_submitted) matches Some(o) ==> spec_status(
            o,
        ) >= 400,
{
}

/// The fields handed to the mailer: each one trimmed.
pub fn mail_fields(req: &ContactFormRequest) -> (r: ContactFormRequest)
    ensures
        r.name@ == text::trim(req.name@),
        r.email@ == text::trim(req.email@),
        r.subject@ == text::trim(req.subject@),
        r.message@ == text::trim(req.message@),
{
    ContactFormRequest {
        name: text::trim_str(req.name.as_str()),
        email: text::trim_str(req.email.as_str()),
        subject: text::trim_str(req.subject.as_str()),
        message: text::trim_str(req.message.as_str()),
    }
}

} // verus!

use riposte_social::contact::{
    check_client_ip, contact_key, contact_response, mail_fields, fields_valid, precheck, ContactFormRequest, ContactOutcome,
};

fn request(name: &str, email: &str, subject: &str, message: &str) -> ContactFormRequest {
    ContactFormRequest {
        name: name.to_string(),
        email: email.to_string(),
        subject: subject.to_string(),
        message: message.to_string(),
    }
}

#[test]
fn well_formed_submission_is_valid() {
    assert!(fields_valid(&request("Ann", "ann@example.com", "Hello", "A message")));
}

#[test]
fn blank_or_oversized_fields_are_refused() {
    assert!(!fields_valid(&request("   ", "ann@example.com", "Hello", "Hi")));
    assert!(!fields_valid(&request("Ann", "ann@example.com", "Hello", "\n\t")));
    assert!(!fields_valid(&request(&"a".repeat(101), "ann@example.com", "Hello", "Hi")));
    assert!(fields_valid(&request(&"a".repeat(100), "ann@example.com", "Hello", "Hi")));
    // Lengths are counted in bytes: 51 two-byte characters are 102 bytes.
    assert!(!fields_valid(&request(&"é".repeat(51), "ann@example.com", "Hello", "Hi")));
    assert!(!fields_valid(&request("Ann", "ann@example.com", &"s".repeat(201), "Hi")));
    assert!(!fields_valid(&request("Ann", &"e".repeat(255), "Hello", "Hi")));
    assert!(!fields_valid(&request("Ann", "ann@example.com", "Hello", &"m".repeat(5001))));
}

#[test]
fn checks_run_in_order() {
    assert_eq!(precheck(false, false, false, true), Some(ContactOutcome::Disabled));
    assert_eq!(precheck(true, false, false, true), Some(ContactOutcome::InvalidInput));
    assert_eq!(precheck(true, true, false, true), Some(ContactOutcome::InvalidEmail));
    assert_eq!(precheck(true, true, true, true), Some(ContactOutcome::RateLimited));
    assert_eq!(precheck(true, true, true, false), None);
}

#[test]
fn responses() {
    let (status, body) = contact_response(ContactOutcome::Sent);
    assert_eq!(status, 200);
    assert!(body.success);
    assert_eq!(body.message, "Thank you for your message! I'll get back to you soon.");
    let (status, body) = contact_response(ContactOutcome::RateLimited);
    assert_eq!(status, 429);
    assert!(!body.success);
    assert_eq!(body.message, "You have recently submitted this contact form.");
    assert_eq!(contact_response(ContactOutcome::Disabled).0, 404);
    assert_eq!(contact_response(ContactOutcome::InvalidInput).0, 400);
    assert_eq!(contact_response(ContactOutcome::InvalidEmail).1.message, "Invalid email address.");
    assert_eq!(contact_response(ContactOutcome::SendFailed).0, 500);
}

#[test]
fn rate_limit_key() {
    assert_eq!(contact_key("10.0.0.1"), "contact_form:10.0.0.1");
}

#[test]
fn an_unparsable_client_address_is_refused() {
    assert!(check_client_ip(true).is_ok());
    match check_client_ip(false) {
        Err(riposte_social::errors::AppError::AuthError(m)) => assert_eq!(m, "Invalid IP address"),
        other => panic!("unexpected {:?}", other),
    }
}

#[test]
fn mailed_fields_are_trimmed() {
    let m = mail_fields(&request(" Ann ", " a@b.org\n", "\tHi ", " Hello there "));
    assert_eq!((m.name.as_str(), m.email.as_str()), ("Ann", "a@b.org"));
    assert_eq!((m.subject.as_str(), m.message.as_str()), ("Hi", "Hello there"));
}

use riposte_social::auth::totp::{
    generate_secret, verify_code, verify_code_at, verify_code_strict, verify_code_with_skew,
};
use totp_rs::{Algorithm, Secret, TOTP};

#[test]
fn test_generate_secret() {
    let setup = generate_secret("test@example.com").unwrap();

    // Secret should be a valid base32 string
    assert!(!setup.secret_base32.is_empty());

    // QR code should be base64 encoded
    assert!(!setup.qr_code_base64.is_empty());

    // URL should contain the email (URL-encoded) and issuer
    assert!(
        setup.otpauth_url.contains("test%40example.com")
            || setup.otpauth_url.contains("test@example.com")
    );
    assert!(setup.otpauth_url.contains("PersonalSite"));
}

#[test]
fn test_verify_code_does_not_error() {
    let setup = generate_secret("test@example.com").unwrap();

    // Verify that code verification doesn't error (result may be true or false)
    let result = verify_code(&setup.secret_base32, "000000", "test@example.com");
    assert!(result.is_ok());
}

#[test]
fn test_verify_code_with_valid_code() {
    let email = "test@example.com";
    let setup = generate_secret(email).unwrap();

    // Generate a valid code from the same secret
    let totp = TOTP::new(
        Algorithm::SHA1,
        6,
        1,
        30,
        Secret::Encoded(setup.secret_base32.clone())
            .to_bytes()
            .unwrap(),
        Some("PersonalSite".to_string()),
        email.to_string(),
    )
    .unwrap();
    let code = totp.generate_current().unwrap();

    assert!(
        verify_code(&setup.secret_base32, &code, email).unwrap(),
        "Valid TOTP code should verify successfully"
    );
}

#[test]
fn generated_secret_decodes_to_twenty_bytes() {
    let setup = generate_secret("a@b.org").unwrap();
    let bytes = Secret::Encoded(setup.secret_base32.clone()).to_bytes().unwrap();
    assert_eq!(bytes.len(), 20);
    // 20 bytes are 32 base32 characters without padding.
    assert_eq!(setup.secret_base32.len(), 32);
}

#[test]
fn generating_for_an_account_name_with_a_colon_fails() {
    let result = generate_secret("odd:name@example.com");
    assert!(result.is_err());
    assert!(result.err().unwrap().starts_with("Failed to create TOTP: "));
}

#[test]
fn strict_check_accepts_the_current_code() {
    let email = "strict@example.com";
    let setup = generate_secret(email).unwrap();
    let totp = TOTP::new(
        Algorithm::SHA1,
        6,
        0,
        30,
        Secret::Encoded(setup.secret_base32.clone()).to_bytes().unwrap(),
        Some("PersonalSite".to_string()),
        email.to_string(),
    )
    .unwrap();
    let code = totp.generate_current().unwrap();
    assert!(verify_code_strict(&setup.secret_base32, &code, email).unwrap());
}

#[test]
fn wrong_code_is_a_mismatch_not_an_error() {
    let setup = generate_secret("w@example.com").unwrap();
    // A seven-digit code can never equal a six-digit one.
    assert_eq!(verify_code(&setup.secret_base32, "1234567", "w@example.com"), Ok(false));
}

#[test]
fn malformed_secret_is_an_error() {
    let err = verify_code("not base32 !!", "123456", "x@example.com").unwrap_err();
    assert!(err.starts_with("Failed to decode secret: "));
}

#[test]
fn short_secret_is_refused() {
    // "JBSWY3DP" decodes to 5 bytes, below the 16-byte minimum.
    let err = verify_code_with_skew("JBSWY3DP", "123456", "x@example.com", 1).unwrap_err();
    assert!(err.starts_with("Failed to create TOTP: "));
}

fn code_at(secret_base32: &str, time: u64) -> String {
    let bytes = Secret::Encoded(secret_base32.to_string()).to_bytes().unwrap();
    TOTP::new(Algorithm::SHA1, 6, 0, 30, bytes, None, "x".to_string()).unwrap().generate(time)
}

#[test]
fn verdict_at_a_fixed_time_covers_one_step_either_side() {
    let email = "window@example.com";
    let s = generate_secret(email).unwrap().secret_base32;
    let t: u64 = 1_700_000_000;
    let previous = code_at(&s, t - 30);
    let current = code_at(&s, t);
    let next = code_at(&s, t + 30);
    let far = code_at(&s, t + 90);
    assert_eq!(verify_code_at(&s, &current, email, 1, Some(t)), Ok(true));
    assert_eq!(verify_code_at(&s, &previous, email, 1, Some(t)), Ok(true));
    assert_eq!(verify_code_at(&s, &next, email, 1, Some(t)), Ok(true));
    assert_eq!(verify_code_at(&s, &current, email, 0, Some(t)), Ok(true));
    if previous != current {
        assert_eq!(verify_code_at(&s, &previous, email, 0, Some(t)), Ok(false));
    }
    if far != previous && far != current && far != next {
        assert_eq!(verify_code_at(&s, &far, email, 1, Some(t)), Ok(false));
    }
    assert_eq!(verify_code_at(&s, "abc", email, 1, Some(t)), Ok(false));
}

#[test]
fn no_clock_or_a_clock_too_near_the_epoch_gives_no_match() {
    let email = "clock@example.com";
    let s = generate_secret(email).unwrap().secret_base32;
    let current = code_at(&s, 10);
    assert_eq!(verify_code_at(&s, &current, email, 1, None), Ok(false));
    assert_eq!(verify_code_at(&s, &current, email, 1, Some(10)), Ok(false));
    assert_eq!(verify_code_at(&s, &current, email, 0, Some(10)), Ok(true));
    assert!(verify_code_at("!!", "123456", email, 1, Some(10)).unwrap_err().starts_with("Failed to decode secret: "));
}

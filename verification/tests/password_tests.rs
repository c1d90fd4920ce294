use riposte_social::password::PasswordValidator;

#[test]
fn test_valid_password() {
    let result = PasswordValidator::validate("MyStr0ng!Password123", "test@example.com");
    assert!(result.is_ok());
}

#[test]
fn test_too_short() {
    let result = PasswordValidator::validate("Short1!", "test@example.com");
    assert!(result.is_err());
    let errors = result.unwrap_err();
    assert!(errors.iter().any(|e| e.contains("at least 16 characters")));
}

#[test]
fn test_missing_uppercase() {
    let result = PasswordValidator::validate("mystr0ng!password123", "test@example.com");
    assert!(result.is_err());
    let errors = result.unwrap_err();
    assert!(errors.iter().any(|e| e.contains("uppercase")));
}

#[test]
fn test_missing_lowercase() {
    let result = PasswordValidator::validate("MYSTR0NG!PASSWORD123", "test@example.com");
    assert!(result.is_err());
    let errors = result.unwrap_err();
    assert!(errors.iter().any(|e| e.contains("lowercase")));
}

#[test]
fn test_missing_number() {
    let result = PasswordValidator::validate("MyStrong!PasswordHere", "test@example.com");
    assert!(result.is_err());
    let errors = result.unwrap_err();
    assert!(errors.iter().any(|e| e.contains("number")));
}

#[test]
fn test_missing_special_char() {
    let result = PasswordValidator::validate("MyStr0ngPassword123", "test@example.com");
    assert!(result.is_err());
    let errors = result.unwrap_err();
    assert!(errors.iter().any(|e| e.contains("special character")));
}

#[test]
fn test_contains_email() {
    let result = PasswordValidator::validate("test@example.com!A1bc", "test@example.com");
    assert!(result.is_err());
    let errors = result.unwrap_err();
    assert!(errors.iter().any(|e| e.contains("email")));
}

#[test]
fn test_contains_username() {
    let result = PasswordValidator::validate("testuser!A1bcdefgh", "testuser@example.com");
    assert!(result.is_err());
    let errors = result.unwrap_err();
    assert!(errors.iter().any(|e| e.contains("username")));
}

#[test]
fn test_multiple_errors_returned() {
    let result = PasswordValidator::validate("short", "test@example.com");
    assert!(result.is_err());
    let errors = result.unwrap_err();
    // Should have multiple errors: too short, no uppercase, no number, no special
    assert!(errors.len() >= 4);
}

#[test]
fn errors_come_in_policy_order() {
    let errors = PasswordValidator::validate("short", "test@example.com").unwrap_err();
    assert_eq!(
        errors,
        vec![
            "Password must be at least 16 characters long".to_string(),
            "Password must contain at least one uppercase letter".to_string(),
            "Password must contain at least one number".to_string(),
            "Password must contain at least one special character".to_string(),
        ]
    );
}

#[test]
fn too_long_password_is_refused() {
    let long = format!("Aa1!{}", "x".repeat(130));
    let errors = PasswordValidator::validate(&long, "someone@example.com").unwrap_err();
    assert_eq!(errors, vec!["Password must be no more than 128 characters long".to_string()]);
}

#[test]
fn common_password_is_refused_case_insensitively() {
    let errors = PasswordValidator::validate("PasswordPassword", "x@y.org").unwrap_err();
    assert!(errors.iter().any(|e| e.contains("too common")));
}

#[test]
fn multibyte_characters_count_once() {
    // Ten characters in 16 bytes are still too short.
    let errors = PasswordValidator::validate("Ab1!éééééé", "zz@example.com").unwrap_err();
    assert!(errors.contains(&"Password must be at least 16 characters long".to_string()));
    // Sixteen characters, six of them two bytes long, are long enough.
    assert!(PasswordValidator::validate("Ab1!ééééééxyzwvq", "zz@example.com").is_ok());
}

#[test]
fn length_counts_characters_not_bytes() {
    match PasswordValidator::validate("ÄÄÄÄÄÄÄÄAa1!", "test@example.com") {
        Err(es) => assert!(es.contains(&"Password must be at least 16 characters long".to_string())),
        Ok(()) => panic!("a 12-character password was accepted"),
    }
}

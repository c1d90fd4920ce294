use riposte_social::errors::AppError;

#[test]
fn statuses_and_messages() {
    assert_eq!(
        AppError::Database("connection refused".to_string()).status_and_message(),
        (500, "Internal server error".to_string())
    );
    assert_eq!(
        AppError::InternalError("stack".to_string()).status_and_message(),
        (500, "Internal server error".to_string())
    );
    assert_eq!(
        AppError::FileSystem("/etc/x".to_string()).status_and_message(),
        (404, "Resource not found".to_string())
    );
    assert_eq!(AppError::InvalidAccess.status_and_message(), (404, "Not found".to_string()));
    assert_eq!(AppError::AuthError("no".to_string()).status_and_message(), (401, "no".to_string()));
    assert_eq!(AppError::Forbidden("f".to_string()).status_and_message(), (403, "f".to_string()));
    assert_eq!(AppError::NotFound("n".to_string()).status_and_message(), (404, "n".to_string()));
    assert_eq!(AppError::ValidationError("v".to_string()).status_and_message(), (400, "v".to_string()));
    assert_eq!(AppError::Conflict("c".to_string()).status_and_message(), (409, "c".to_string()));
}

#[test]
fn log_descriptions() {
    assert_eq!(AppError::Database("down".to_string()).message(), "Database error: down");
    assert_eq!(AppError::InvalidAccess.message(), "Invalid access code");
    assert_eq!(AppError::NotFound("Album not found".to_string()).message(), "Not found: Album not found");
    assert_eq!(AppError::InternalError("x".to_string()).message(), "Internal error: x");
}

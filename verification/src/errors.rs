//! Application errors and the HTTP status and client-facing message each
//! one is answered with.
use vstd::prelude::*;
use crate::text;

verus! {

/// Application-specific errors. The payloads that come from other layers
/// (database, file system) are carried as their rendered text.
#[derive(Debug)]
pub enum AppError {
    Database(String),
    FileSystem(String),
    InvalidAccess,
    AuthError(String),
    /// A well-formed, authenticated request denied by policy.
    Forbidden(String),
    /// A missing entity, or one the caller may not see.
    NotFound(String),
    ValidationError(String),
    /// A request that conflicts with the current state.
    Conflict(String),
    InternalError(String),
}

pub type AppResult<T> = Result<T, AppError>;

/// The HTTP status an error is answered with.
pub open spec fn spec_status(e: AppError) -> u16 {
    match e {
        AppError::Database(_) => 500,
        AppError::FileSystem(_) => 404,
        AppError::InvalidAccess => 404,
        AppError::AuthError(_) => 401,
        AppError::Forbidden(_) => 403,
        AppError::NotFound(_) => 404,
        AppError::ValidationError(_) => 400,
        AppError::Conflict(_) => 409,
        AppError::InternalError(_) => 500,
    }
}

/// The message the client sees. Database, file-system, access and internal
/// errors are answered with a fixed text so that nothing of their detail
/// leaks; the other kinds carry their own message.
pub open spec fn spec_client_message(e: AppError) -> Seq<char> {
    match e {
        AppError::Database(_) => "Internal server error"@,
        AppError::FileSystem(_) => "Resource not found"@,
        AppError::InvalidAccess => "Not found"@,
        AppError::AuthError(m) => m@,
        AppError::Forbidden(m) => m@,
        AppError::NotFound(m) => m@,
        AppError::ValidationError(m) => m@,
        AppError::Conflict(m) => m@,
        AppError::InternalError(_) => "Internal server error"@,
    }
}

/// The error's own description, as logged.
pub open spec fn spec_message(e: AppError) -> Seq<char> {
    match e {
        AppError::Database(d) => "Database error: "@ + d@,
        AppError::FileSystem(d) => "File system error: "@ + d@,
        AppError::InvalidAccess => "Invalid access code"@,
        AppError::AuthError(m) => "Authentication error: "@ + m@,
        AppError::Forbidden(m) => "Forbidden: "@ + m@,
        AppError::NotFound(m) => "Not found: "@ + m@,
        AppError::ValidationError(m) => "Validation error: "@ + m@,
        AppError::Conflict(m) => "Conflict: "@ + m@,
        AppError::InternalError(m) => "Internal error: "@ + m@,
    }
}

fn prefixed(prefix: &str, detail: &str) -> (r: String)
    ensures
        r@ == prefix@ + detail@,
{
    let mut s = text::owned(prefix);
    s.append(detail);
    s
}

impl AppError {
    /// The error's own description (kind and detail), as written to the
    /// server log; never sent to the client as such.
    pub fn message(&self) -> (r: String)
        ensures
            r@ == spec_message(*self),
    {
        match self {
            AppError::Database(d) => prefixed("Database error: ", d.as_str()),
            AppError::FileSystem(d) => prefixed("File system error: ", d.as_str()),
            AppError::InvalidAccess => text::owned("Invalid access code"),
            AppError::AuthError(m) => prefixed("Authentication error: ", m.as_str()),
            AppError::Forbidden(m) => prefixed("Forbidden: ", m.as_str()),
            AppError::NotFound(m) => prefixed("Not found: ", m.as_str()),
            AppError::ValidationError(m) => prefixed("Validation error: ", m.as_str()),
            AppError::Conflict(m) => prefixed("Conflict: ", m.as_str()),
            AppError::InternalError(m) => prefixed("Internal error: ", m.as_str()),
        }
    }

    /// The status code and client-facing message of the error response.
    pub fn status_and_message(self) -> (r: (u16, String))
        ensures
            r.0 == spec_status(self),
            r.1@ == spec_client_message(self),
    {
        match self {
            AppError::Database(_) => (500, text::owned("Internal server error")),
            AppError::FileSystem(_) => (404, text::owned("Resource not found")),
            AppError::InvalidAccess => (404, text::owned("Not found")),
            AppError::AuthError(m) => (401, m),
            AppError::Forbidden(m) => (403, m),
            AppError::NotFound(m) => (404, m),
            AppError::ValidationError(m) => (400, m),
            AppError::Conflict(m) => (409, m),
            AppError::InternalError(_) => (500, text::owned("Internal server error")),
        }
    }
}

/// Errors whose detail comes from storage or internals never reach the
/// client: their response carries a fixed message with status 500 or 404.
pub proof fn internal_details_never_leak(e: AppError)
    requires
        e is Database || e is InternalError || e is FileSystem,
    ensures
        spec_client_message(e) == "Internal server error"@ || spec_client_message(e)
            == "Resource not found"@,
        spec_status(e) == 500 || spec_status(e) == 404,
{
}

} // verus!

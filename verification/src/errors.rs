//! The error taxonomy and its mapping to wire-level status codes.
//!
//! `ServiceError` is the typed outcome of the service layer; `ApiError` is the
//! structured `{statusCode, message}` body that a handler would serialize.

use vstd::prelude::*;

verus! {

/// A typed failure of the service layer.
///
/// - `Validation`: a malformed request (missing required field); carries the
///   field-level message.
/// - `NotFound`: the entity is absent or not owned by the caller; the two are
///   intentionally indistinguishable so that non-owners learn nothing.
/// - `Storage`: the store refused an insert (here: it is at capacity).
/// - `Internal`: a data-integrity invariant was found broken (an application
///   with an empty status history).
#[derive(Debug)]
pub enum ServiceError {
    Validation(String),
    NotFound,
    Storage,
    Internal,
}

/// The structured error body: `{statusCode, message}`.
pub struct ApiError {
    pub status_code: u16,
    pub message: String,
}

impl ApiError {
    /// Maps a service failure to its wire status code: 400 for validation
    /// failures (with the field-level message), 404 for not-found, and 500 for
    /// storage or internal failures with a generic message that never leaks
    /// the underlying cause.
    pub fn from_service_error(e: &ServiceError) -> (r: ApiError)
        ensures
            e matches ServiceError::Validation(m) ==> r.status_code == 400 && r.message@ == m@,
            e is NotFound ==> r.status_code == 404 && r.message@ == "Not Found"@,
            e is Storage ==> r.status_code == 500 && r.message@ == "Internal Server Error"@,
            e is Internal ==> r.status_code == 500 && r.message@ == "Internal Server Error"@,
    {
        match e {
            ServiceError::Validation(m) => ApiError { status_code: 400, message: m.clone() },
            ServiceError::NotFound => ApiError { status_code: 404, message: "Not Found".to_owned() },
            ServiceError::Storage => ApiError {
                status_code: 500,
                message: "Internal Server Error".to_owned(),
            },
            ServiceError::Internal => ApiError {
                status_code: 500,
                message: "Internal Server Error".to_owned(),
            },
        }
    }
}

} // verus!

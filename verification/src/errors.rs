//! The service's error taxonomy, with the display text of each variant
//! and its mapping onto an HTTP status and machine-readable error type.
use vstd::prelude::*;
use vstd::string::{StrSliceExecFns, StringExecFns};

verus! {

/// Application error types. Errors raised by outside calls (HTTP, file
/// reads, JSON decoding) are carried as their display text.
#[derive(Debug)]
pub enum AppError {
    Geocoding(String),
    ThemeNotFound(String),
    InvalidDistance(String),
    DataFetch(String),
    Rendering(String),
    JobNotFound(String),
    Internal(String),
    Request(String),
    Io(String),
    Json(String),
}

/// The display text of an error.
pub open spec fn error_message_spec(e: AppError) -> Seq<char> {
    match e {
        AppError::Geocoding(m) => "Geocoding failed: "@ + m@,
        AppError::ThemeNotFound(m) => "Theme not found: "@ + m@,
        AppError::InvalidDistance(m) => "Invalid distance: "@ + m@,
        AppError::DataFetch(m) => "Data fetch failed: "@ + m@,
        AppError::Rendering(m) => "Rendering failed: "@ + m@,
        AppError::JobNotFound(m) => "Job not found: "@ + m@,
        AppError::Internal(m) => "Internal error: "@ + m@,
        AppError::Request(m) => "Request error: "@ + m@,
        AppError::Io(m) => "IO error: "@ + m@,
        AppError::Json(m) => "JSON error: "@ + m@,
    }
}

/// The HTTP status code an error maps to.
pub open spec fn error_status_spec(e: AppError) -> u16 {
    match e {
        AppError::Geocoding(_) => 400,
        AppError::ThemeNotFound(_) => 404,
        AppError::InvalidDistance(_) => 400,
        AppError::DataFetch(_) => 503,
        AppError::Rendering(_) => 500,
        AppError::JobNotFound(_) => 404,
        AppError::Internal(_) => 500,
        AppError::Request(_) => 503,
        AppError::Io(_) => 500,
        AppError::Json(_) => 400,
    }
}

/// The machine-readable error type an error maps to.
pub open spec fn error_type_spec(e: AppError) -> Seq<char> {
    match e {
        AppError::Geocoding(_) => "geocoding_error"@,
        AppError::ThemeNotFound(_) => "theme_not_found"@,
        AppError::InvalidDistance(_) => "invalid_distance"@,
        AppError::DataFetch(_) => "data_fetch_error"@,
        AppError::Rendering(_) => "rendering_error"@,
        AppError::JobNotFound(_) => "job_not_found"@,
        AppError::Internal(_) => "internal_error"@,
        AppError::Request(_) => "request_error"@,
        AppError::Io(_) => "io_error"@,
        AppError::Json(_) => "json_error"@,
    }
}

/// The human-readable message reported beside the error type: verbatim
/// payload for most variants, a sentence for the not-found ones.
pub open spec fn error_body_message_spec(e: AppError) -> Seq<char> {
    match e {
        AppError::ThemeNotFound(name) => "Theme '"@ + name@ + "' not found"@,
        AppError::JobNotFound(id) => "Job '"@ + id@ + "' not found"@,
        AppError::Geocoding(m) => m@,
        AppError::InvalidDistance(m) => m@,
        AppError::DataFetch(m) => m@,
        AppError::Rendering(m) => m@,
        AppError::Internal(m) => m@,
        AppError::Request(m) => m@,
        AppError::Io(m) => m@,
        AppError::Json(m) => m@,
    }
}

impl AppError {
    /// The display text of this error.
    pub fn message(&self) -> (r: String)
        ensures
            r@ == error_message_spec(*self),
    {
        let (prefix, payload): (&str, &String) = match self {
            AppError::Geocoding(m) => ("Geocoding failed: ", m),
            AppError::ThemeNotFound(m) => ("Theme not found: ", m),
            AppError::InvalidDistance(m) => ("Invalid distance: ", m),
            AppError::DataFetch(m) => ("Data fetch failed: ", m),
            AppError::Rendering(m) => ("Rendering failed: ", m),
            AppError::JobNotFound(m) => ("Job not found: ", m),
            AppError::Internal(m) => ("Internal error: ", m),
            AppError::Request(m) => ("Request error: ", m),
            AppError::Io(m) => ("IO error: ", m),
            AppError::Json(m) => ("JSON error: ", m),
        };
        let mut r = String::from_str(prefix);
        r.append(payload.as_str());
        r
    }

    /// The HTTP status code, error type, and message this error is
    /// reported with.
    pub fn http_parts(&self) -> (r: (u16, String, String))
        ensures
            r.0 == error_status_spec(*self),
            r.1@ == error_type_spec(*self),
            r.2@ == error_body_message_spec(*self),
    {
        match self {
            AppError::Geocoding(m) => (
                400,
                String::from_str("geocoding_error"),
                String::from_str(m.as_str()),
            ),
            AppError::ThemeNotFound(name) => {
                let mut msg = String::from_str("Theme '");
                msg.append(name.as_str());
                msg.append("' not found");
                (404, String::from_str("theme_not_found"), msg)
            },
            AppError::InvalidDistance(m) => (
                400,
                String::from_str("invalid_distance"),
                String::from_str(m.as_str()),
            ),
            AppError::DataFetch(m) => (
                503,
                String::from_str("data_fetch_error"),
                String::from_str(m.as_str()),
            ),
            AppError::Rendering(m) => (
                500,
                String::from_str("rendering_error"),
                String::from_str(m.as_str()),
            ),
            AppError::JobNotFound(id) => {
                let mut msg = String::from_str("Job '");
                msg.append(id.as_str());
                msg.append("' not found");
                (404, String::from_str("job_not_found"), msg)
            },
            AppError::Internal(m) => (
                500,
                String::from_str("internal_error"),
                String::from_str(m.as_str()),
            ),
            AppError::Request(m) => (
                503,
                String::from_str("request_error"),
                String::from_str(m.as_str()),
            ),
            AppError::Io(m) => (500, String::from_str("io_error"), String::from_str(m.as_str())),
            AppError::Json(m) => (
                400,
                String::from_str("json_error"),
                String::from_str(m.as_str()),
            ),
        }
    }
}

} // verus!

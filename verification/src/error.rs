//! The errors of the service and how they are answered.

use vstd::prelude::*;

verus! {

/// An error of the service. `Internal` holds the text of an unexpected
/// lower-level failure.
pub enum AppError {
    Download(String),
    Conversion(String),
    Identification(String),
    TaskNotFound(String),
    InvalidUrl(String),
    Internal(String),
}

/// The human-readable text of an error.
pub open spec fn error_text(e: AppError) -> Seq<char> {
    match e {
        AppError::Download(m) => "download failed: "@ + m@,
        AppError::Conversion(m) => "audio conversion failed: "@ + m@,
        AppError::Identification(m) => "identification failed: "@ + m@,
        AppError::TaskNotFound(m) => "task not found: "@ + m@,
        AppError::InvalidUrl(m) => "invalid url: "@ + m@,
        AppError::Internal(m) => "internal error: "@ + m@,
    }
}

/// The HTTP status an error is answered with.
pub open spec fn error_status(e: AppError) -> u16 {
    match e {
        AppError::TaskNotFound(_) => 404,
        AppError::InvalidUrl(_) => 400,
        _ => 500,
    }
}

impl AppError {
    /// The text of the error (its `Display`).
    pub fn message(&self) -> (s: String)
        ensures
            s@ == error_text(*self),
    {
        let (prefix, detail) = match self {
            AppError::Download(m) => ("download failed: ", m),
            AppError::Conversion(m) => ("audio conversion failed: ", m),
            AppError::Identification(m) => ("identification failed: ", m),
            AppError::TaskNotFound(m) => ("task not found: ", m),
            AppError::InvalidUrl(m) => ("invalid url: ", m),
            AppError::Internal(m) => ("internal error: ", m),
        };
        let mut s = String::from_str(prefix);
        s.append(detail.as_str());
        s
    }

    /// The HTTP status of the answer: 404 for an unknown task, 400 for a
    /// bad URL, 500 otherwise.
    pub fn status_code(&self) -> (c: u16)
        ensures
            c == error_status(*self),
    {
        match self {
            AppError::TaskNotFound(_) => 404,
            AppError::InvalidUrl(_) => 400,
            _ => 500,
        }
    }
}

} // verus!

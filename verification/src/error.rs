//! The user-facing error taxonomy and the classification of persistence
//! failures.
//!
//! Every failed request ends in one of three categories: bad request,
//! not found, or internal error.  Raw persistence detail never reaches
//! the caller; only the category's message does.

use vstd::prelude::*;

use crate::model::ErrorResponse;
use crate::strutil::has_substr;
use crate::strutil::str_contains;

verus! {

/// Application error taxonomy, each variant carrying the message shown
/// to the caller.
#[derive(Debug)]
pub enum AppError {
    /// Unclassified persistence or infrastructure failure.
    InternalServerError(String),
    /// Malformed input, validation failure, or uniqueness conflict.
    BadRequest(String),
    /// No row for the given id.
    NotFound(String),
}

impl AppError {
    /// The message carried by the error.
    pub open spec fn spec_message(&self) -> Seq<char> {
        match self {
            AppError::InternalServerError(m) => m@,
            AppError::BadRequest(m) => m@,
            AppError::NotFound(m) => m@,
        }
    }

    /// The HTTP status the error is rendered with.
    pub open spec fn spec_status_code(&self) -> int {
        match self {
            AppError::InternalServerError(_) => 500,
            AppError::BadRequest(_) => 400,
            AppError::NotFound(_) => 404,
        }
    }

    /// The rendering of the error, spelled out for each variant.
    pub open spec fn spec_display(&self) -> Seq<char> {
        match self {
            AppError::InternalServerError(m) => "Internal server error: "@ + m@,
            AppError::BadRequest(m) => "Bad request: "@ + m@,
            AppError::NotFound(m) => "Not found: "@ + m@,
        }
    }

    /// The HTTP status the error is rendered with.
    pub fn status_code(&self) -> (r: u16)
        ensures
            r as int == self.spec_status_code(),
    {
        match self {
            AppError::InternalServerError(_) => 500,
            AppError::BadRequest(_) => 400,
            AppError::NotFound(_) => 404,
        }
    }

    /// The body rendered for the error: `success` false and the carried
    /// message, with no internal detail.
    pub fn to_error_response(self) -> (r: ErrorResponse)
        ensures
            !r.success,
            r.message@ == self.spec_message(),
            r.error is None,
    {
        match self {
            AppError::InternalServerError(m) => ErrorResponse::new(m),
            AppError::BadRequest(m) => ErrorResponse::new(m),
            AppError::NotFound(m) => ErrorResponse::new(m),
        }
    }

    /// The error spelled out as one line of text.
    pub fn display_string(&self) -> (r: String)
        ensures
            r@ == self.spec_display(),
    {
        let mut s = match self {
            AppError::InternalServerError(_) => String::from_str("Internal server error: "),
            AppError::BadRequest(_) => String::from_str("Bad request: "),
            AppError::NotFound(_) => String::from_str("Not found: "),
        };
        match self {
            AppError::InternalServerError(m) => s.append(m.as_str()),
            AppError::BadRequest(m) => s.append(m.as_str()),
            AppError::NotFound(m) => s.append(m.as_str()),
        }
        s
    }
}

/// Whether a persistence layer's error text indicates a uniqueness
/// violation: the wording Postgres uses for a duplicate key or a unique
/// constraint.
pub open spec fn spec_unique_violation(msg: Seq<char>) -> bool {
    has_substr(msg, "duplicate key"@) || has_substr(msg, "unique constraint"@)
}

/// Classify a persistence error's text: true exactly when it carries a
/// uniqueness-violation indicator, and so should surface as a bad
/// request rather than an internal error.
pub fn is_unique_violation_message(msg: &str) -> (r: bool)
    ensures
        r == spec_unique_violation(msg@),
{
    if str_contains(msg, "duplicate key") {
        return true;
    }
    str_contains(msg, "unique constraint")
}

} // verus!

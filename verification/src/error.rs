//! The error kinds that the tracker reports, with the wording and the
//! response status that belong to each.

use vstd::prelude::*;
use vstd::string::StringExecFns;

verus! {

/// What can go wrong while a request is served. Each kind carries a message
/// for the person reading the response.
#[derive(Debug)]
pub enum AppError {
    /// The store could not be reached: its guard was left unusable.
    InternalError(String),
    /// The request was malformed or held an invalid value.
    BadRequest(String),
    /// The requested event does not exist.
    NotFound(String),
    /// Anything unforeseen.
    Unexpected(String),
}

impl AppError {
    /// The message the error carries.
    pub open spec fn spec_message(self) -> Seq<char> {
        match self {
            AppError::InternalError(m) => m@,
            AppError::BadRequest(m) => m@,
            AppError::NotFound(m) => m@,
            AppError::Unexpected(m) => m@,
        }
    }

    /// The response status of each kind: client errors are 400 and 404, the
    /// two server-side kinds are 500.
    pub open spec fn spec_status_code(self) -> u16 {
        match self {
            AppError::InternalError(_) => 500,
            AppError::BadRequest(_) => 400,
            AppError::NotFound(_) => 404,
            AppError::Unexpected(_) => 500,
        }
    }

    /// The machine-readable category of each kind.
    pub open spec fn spec_category(self) -> Seq<char> {
        match self {
            AppError::InternalError(_) => "Internal server error"@,
            AppError::BadRequest(_) => "Bad request"@,
            AppError::NotFound(_) => "Not found"@,
            AppError::Unexpected(_) => "Unexpected error"@,
        }
    }

    /// The words that open the one-line description of each kind.
    pub open spec fn spec_prefix(self) -> Seq<char> {
        match self {
            AppError::InternalError(_) => "Internal server error: "@,
            AppError::BadRequest(_) => "Bad request: "@,
            AppError::NotFound(_) => "Resource not found: "@,
            AppError::Unexpected(_) => "Unexpected error: "@,
        }
    }

    pub fn message(&self) -> (m: &String)
        ensures
            m@ == self.spec_message(),
    {
        match self {
            AppError::InternalError(m) => m,
            AppError::BadRequest(m) => m,
            AppError::NotFound(m) => m,
            AppError::Unexpected(m) => m,
        }
    }

    pub fn status_code(&self) -> (code: u16)
        ensures
            code == self.spec_status_code(),
    {
        match self {
            AppError::InternalError(_) => 500,
            AppError::BadRequest(_) => 400,
            AppError::NotFound(_) => 404,
            AppError::Unexpected(_) => 500,
        }
    }

    pub fn category(&self) -> (label: &'static str)
        ensures
            label@ == self.spec_category(),
    {
        match self {
            AppError::InternalError(_) => "Internal server error",
            AppError::BadRequest(_) => "Bad request",
            AppError::NotFound(_) => "Not found",
            AppError::Unexpected(_) => "Unexpected error",
        }
    }

    /// The one-line description: the kind's opening words, then the message.
    pub fn describe(&self) -> (line: String)
        ensures
            line@ == self.spec_prefix() + self.spec_message(),
    {
        let prefix = match self {
            AppError::InternalError(_) => "Internal server error: ",
            AppError::BadRequest(_) => "Bad request: ",
            AppError::NotFound(_) => "Resource not found: ",
            AppError::Unexpected(_) => "Unexpected error: ",
        };
        String::from_str(prefix).concat(self.message().as_str())
    }
}

} // verus!

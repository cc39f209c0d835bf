//! Errors of the chat service, the HTTP status each one is reported with,
//! and its message.
use vstd::prelude::*;

use crate::chat::response::ApiResponse;
use crate::chars::{chars_of, string_of};

verus! {

/// A failure of a chat request. Failures of outside services (database, I/O,
/// tokens, password hashes) carry the text the service reported.
#[derive(Debug, PartialEq, Eq)]
pub enum AppError {
    DBError(String),
    InternalError(String),
    IOError(String),
    JwtError(String),
    PasswordError(String),
    Forbidden(String),
    NotFound(String),
    InvalidRequest(String),
    InvalidFile(String),
}

/// HTTP status codes used by the service.
pub const STATUS_OK: u16 = 200;

pub const STATUS_BAD_REQUEST: u16 = 400;

pub const STATUS_UNAUTHORIZED: u16 = 401;

pub const STATUS_FORBIDDEN: u16 = 403;

pub const STATUS_NOT_FOUND: u16 = 404;

pub const STATUS_INTERNAL_SERVER_ERROR: u16 = 500;

impl AppError {
    /// The status a failure is reported with: server-side failures are 500,
    /// rejected credentials and permissions 403, missing things 404 and bad
    /// input 400.
    pub open spec fn status_of(self) -> u16 {
        match self {
            AppError::DBError(_) => 500,
            AppError::InternalError(_) => 500,
            AppError::IOError(_) => 500,
            AppError::JwtError(_) => 403,
            AppError::PasswordError(_) => 403,
            AppError::NotFound(_) => 404,
            AppError::Forbidden(_) => 403,
            AppError::InvalidRequest(_) => 400,
            AppError::InvalidFile(_) => 400,
        }
    }

    /// The text of a failure: a fixed prefix naming its kind, then its detail.
    pub open spec fn message_of(self) -> Seq<char> {
        match self {
            AppError::DBError(m) => "DB error, "@ + m@,
            AppError::InternalError(m) => "Internal server error, "@ + m@,
            AppError::IOError(m) => "IO error, "@ + m@,
            AppError::JwtError(m) => "JWT error, "@ + m@,
            AppError::PasswordError(m) => "Password error, "@ + m@,
            AppError::Forbidden(m) => "Forbidden, "@ + m@,
            AppError::NotFound(m) => "Not found, "@ + m@,
            AppError::InvalidRequest(m) => "Invalid request, "@ + m@,
            AppError::InvalidFile(m) => "Invalid file, "@ + m@,
        }
    }

    /// The status this failure is reported with.
    pub fn status(&self) -> (code: u16)
        ensures
            code == self.status_of(),
    {
        match self {
            AppError::DBError(_) => STATUS_INTERNAL_SERVER_ERROR,
            AppError::InternalError(_) => STATUS_INTERNAL_SERVER_ERROR,
            AppError::IOError(_) => STATUS_INTERNAL_SERVER_ERROR,
            AppError::JwtError(_) => STATUS_FORBIDDEN,
            AppError::PasswordError(_) => STATUS_FORBIDDEN,
            AppError::NotFound(_) => STATUS_NOT_FOUND,
            AppError::Forbidden(_) => STATUS_FORBIDDEN,
            AppError::InvalidRequest(_) => STATUS_BAD_REQUEST,
            AppError::InvalidFile(_) => STATUS_BAD_REQUEST,
        }
    }

    /// The text of this failure, as its `Display` writes it.
    pub fn message(&self) -> (s: String)
        ensures
            s@ == self.message_of(),
    {
        let (prefix, detail): (&str, &String) = match self {
            AppError::DBError(m) => ("DB error, ", m),
            AppError::InternalError(m) => ("Internal server error, ", m),
            AppError::IOError(m) => ("IO error, ", m),
            AppError::JwtError(m) => ("JWT error, ", m),
            AppError::PasswordError(m) => ("Password error, ", m),
            AppError::Forbidden(m) => ("Forbidden, ", m),
            AppError::NotFound(m) => ("Not found, ", m),
            AppError::InvalidRequest(m) => ("Invalid request, ", m),
            AppError::InvalidFile(m) => ("Invalid file, ", m),
        };
        let mut s = String::from_str(prefix);
        s.append(detail.as_str());
        s
    }

    /// The answer sent for this failure: a failed envelope carrying the
    /// failure's status and text (the HTTP status line itself is always 200).
    pub fn into_response(self) -> (r: ApiResponse<()>)
        ensures
            !r.success,
            r.code == self.status_of(),
            r.error matches Some(m) && m@ == self.message_of(),
            r.data is None,
    {
        let code = self.status();
        let msg = self.message();
        ApiResponse::error(code, msg)
    }
}

} // verus!

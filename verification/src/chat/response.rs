//! The JSON envelope that every chat API answer is wrapped in.
use vstd::prelude::*;

verus! {

/// An API answer: `success` with code 200 and `data`, or a failure with an
/// HTTP-like `code` and an `error` text.
#[derive(Debug, PartialEq, Eq)]
pub struct ApiResponse<T> {
    pub success: bool,
    pub code: u16,
    pub error: Option<String>,
    pub data: Option<T>,
}

impl<T> ApiResponse<T> {
    /// A successful answer carrying `data`.
    pub fn success(data: T) -> (r: Self)
        ensures
            r.success,
            r.code == 200,
            r.error is None,
            r.data == Some(data),
    {
        ApiResponse { success: true, code: 200, error: None, data: Some(data) }
    }

    /// A failed answer with status `code` and message `error`.
    pub fn error(code: u16, error: String) -> (r: Self)
        ensures
            !r.success,
            r.code == code,
            r.error == Some(error),
            r.data is None,
    {
        ApiResponse { success: false, code, error: Some(error), data: None }
    }
}

} // verus!

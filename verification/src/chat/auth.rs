//! Where a request's token comes from, what a refused request is answered,
//! and the HTTP headers the service adds to answers.
use uuid::Uuid;
use vstd::prelude::*;

use crate::chars::{chars_of, extend_str, string_of};
use crate::chat::error::{STATUS_FORBIDDEN, STATUS_UNAUTHORIZED};
use crate::chat::response::ApiResponse;
use crate::numtext::{nat_text, u128_digits};

verus! {

/// What the `Authorization: Bearer` header of a request held.
#[derive(Debug)]
pub enum HeaderToken {
    /// A bearer token.
    Bearer(String),
    /// No such header.
    Missing,
    /// A header that is not a bearer token; the description of the problem.
    Invalid(String),
}

/// The token of a request: the bearer token of the header; when the header
/// is missing, the `token` query parameter (`query_token`, `None` when the
/// query does not hold one). Otherwise the request is refused with a 401.
pub fn select_token(header: HeaderToken, query_token: Option<String>) -> (r: Result<
    String,
    ApiResponse<()>,
>)
    ensures
        match header {
            HeaderToken::Bearer(t) => r == Ok::<String, ApiResponse<()>>(t),
            HeaderToken::Missing => match query_token {
                Some(t) => r == Ok::<String, ApiResponse<()>>(t),
                None => r matches Err(a) && !a.success && a.code == 401 && a.data is None && (
                a.error matches Some(m) && m@ == "failed to parse token from query"@),
            },
            HeaderToken::Invalid(d) => r matches Err(a) && !a.success && a.code == 401 && a.data is None
                && (a.error matches Some(m) && m@ == "Failed to parse token from header, error: "@
                + d@),
        },
{
    match header {
        HeaderToken::Bearer(t) => Ok(t),
        HeaderToken::Missing => match query_token {
            Some(t) => Ok(t),
            None => Err(
                ApiResponse::error(
                    STATUS_UNAUTHORIZED,
                    String::from_str("failed to parse token from query"),
                ),
            ),
        },
        HeaderToken::Invalid(d) => {
            let mut v = chars_of("Failed to parse token from header, error: ");
            extend_str(&mut v, d.as_str());
            Err(ApiResponse::error(STATUS_UNAUTHORIZED, string_of(v.as_slice())))
        },
    }
}

/// A request whose token was checked: its user when the token is good,
/// else a 403 carrying the description of the failure.
pub fn verification_outcome<U>(checked: Result<U, String>) -> (r: Result<U, ApiResponse<()>>)
    ensures
        match checked {
            Ok(u) => r == Ok::<U, ApiResponse<()>>(u),
            Err(d) => r matches Err(a) && !a.success && a.code == 403 && a.data is None && (
            a.error matches Some(m) && m@ == "Failed to verify token, error: "@ + d@),
        },
{
    match checked {
        Ok(u) => Ok(u),
        Err(d) => {
            let mut v = chars_of("Failed to verify token, error: ");
            extend_str(&mut v, d.as_str());
            Err(ApiResponse::error(STATUS_FORBIDDEN, string_of(v.as_slice())))
        },
    }
}

/// A lower-case hexadecimal digit.
pub open spec fn is_hex_digit(c: char) -> bool {
    ('0' <= c && c <= '9') || ('a' <= c && c <= 'f')
}

/// The hyphenated text of a version-7 UUID: 32 lower-case hexadecimal digits
/// in groups of 8, 4, 4, 4 and 12 joined by `-`, the version digit `7` first
/// in the third group and the variant digit (`8` to `b`) first in the fourth.
pub open spec fn is_uuid_v7_text(s: Seq<char>) -> bool {
    &&& s.len() == 36
    &&& forall|i: int|
        0 <= i < 36 ==> (if i == 8 || i == 13 || i == 18 || i == 23 {
            s[i] == '-'
        } else {
            is_hex_digit(#[trigger] s[i])
        })
    &&& s[14] == '7'
    &&& (s[19] == '8' || s[19] == '9' || s[19] == 'a' || s[19] == 'b')
}

/// `Uuid::now_v7` written by `to_string`: a fresh time-ordered id in the
/// hyphenated lower-case form. Which id comes out depends on the clock and
/// chance and is not stated.
#[verifier::external_body]
fn uuid_v7_text() -> (s: String)
    ensures
        is_uuid_v7_text(s@),
{
    Uuid::now_v7().to_string()
}

/// A new request id, for requests that come without one: a fresh version-7
/// UUID in hyphenated form.
pub fn new_request_id() -> (s: String)
    ensures
        is_uuid_v7_text(s@),
{
    uuid_v7_text()
}

/// The value of the server-time header: the time spent on the request in
/// microseconds, followed by `us`.
pub fn server_time_value(micros: u128) -> (s: String)
    ensures
        s@ == nat_text(micros as nat) + "us"@,
{
    let mut v = u128_digits(micros);
    extend_str(&mut v, "us");
    string_of(v.as_slice())
}

} // verus!

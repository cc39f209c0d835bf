//! Base64 encoding and decoding of text.
use base64::engine::general_purpose::{STANDARD, URL_SAFE_NO_PAD};
use base64::Engine;
use vstd::prelude::*;
use vstd::utf8::{decode_utf8, encode_utf8, valid_utf8};

use crate::cli::opts::Base64Format;

verus! {

/// The base64 digit of the 6-bit value `n`: `A`-`Z`, `a`-`z`, `0`-`9`, then
/// `+` and `/` in the standard alphabet or `-` and `_` in the URL-safe one.
pub open spec fn b64_digit(url_safe: bool, n: int) -> char {
    if n < 26 {
        (65 + n) as char
    } else if n < 52 {
        (97 + (n - 26)) as char
    } else if n < 62 {
        (48 + (n - 52)) as char
    } else if n == 62 {
        if url_safe {
            '-'
        } else {
            '+'
        }
    } else {
        if url_safe {
            '_'
        } else {
            '/'
        }
    }
}

/// Base64 text of `d`: every three bytes become four digits, high bits
/// first; a last group of one or two bytes becomes two or three digits (the
/// unused low bits zero), followed, when `pad`, by `=` up to four characters.
pub open spec fn base64_text(url_safe: bool, pad: bool, d: Seq<u8>) -> Seq<char>
    decreases d.len(),
{
    if d.len() == 0 {
        Seq::empty()
    } else if d.len() == 1 {
        seq![
            b64_digit(url_safe, (d[0] as int) / 4),
            b64_digit(url_safe, ((d[0] as int) % 4) * 16),
        ] + if pad {
            seq!['=', '=']
        } else {
            Seq::empty()
        }
    } else if d.len() == 2 {
        seq![
            b64_digit(url_safe, (d[0] as int) / 4),
            b64_digit(url_safe, ((d[0] as int) % 4) * 16 + (d[1] as int) / 16),
            b64_digit(url_safe, ((d[1] as int) % 16) * 4),
        ] + if pad {
            seq!['=']
        } else {
            Seq::empty()
        }
    } else {
        seq![
            b64_digit(url_safe, (d[0] as int) / 4),
            b64_digit(url_safe, ((d[0] as int) % 4) * 16 + (d[1] as int) / 16),
            b64_digit(url_safe, ((d[1] as int) % 16) * 4 + (d[2] as int) / 64),
            b64_digit(url_safe, (d[2] as int) % 64),
        ] + base64_text(url_safe, pad, d.skip(3))
    }
}

/// Base64 text of `data` in the standard alphabet, with `=` padding.
pub open spec fn base64_standard(data: Seq<u8>) -> Seq<char> {
    base64_text(false, true, data)
}

/// Base64 text of `data` in the URL-safe alphabet, without padding.
pub open spec fn base64_url_safe(data: Seq<u8>) -> Seq<char> {
    base64_text(true, false, data)
}

/// The bytes that standard, padded base64 `text` denotes: the bytes whose
/// encoding it is, when it is the encoding of some bytes.
pub open spec fn base64_standard_decoded(text: Seq<char>) -> Option<Seq<u8>> {
    if exists|d: Seq<u8>| #[trigger] base64_standard(d) == text {
        Some(choose|d: Seq<u8>| #[trigger] base64_standard(d) == text)
    } else {
        None
    }
}

/// The bytes that URL-safe, unpadded base64 `text` denotes: the bytes whose
/// encoding it is, when it is the encoding of some bytes.
pub open spec fn base64_url_safe_decoded(text: Seq<char>) -> Option<Seq<u8>> {
    if exists|d: Seq<u8>| #[trigger] base64_url_safe(d) == text {
        Some(choose|d: Seq<u8>| #[trigger] base64_url_safe(d) == text)
    } else {
        None
    }
}

/// The base64 text of `data` in the given alphabet.
pub open spec fn encoded(format: Base64Format, data: Seq<u8>) -> Seq<char> {
    match format {
        Base64Format::Standard => base64_standard(data),
        Base64Format::UrlSafeNoPad => base64_url_safe(data),
    }
}

/// The bytes base64 `text` denotes in the given alphabet, if any.
pub open spec fn decoded(format: Base64Format, text: Seq<char>) -> Option<Seq<u8>> {
    match format {
        Base64Format::Standard => base64_standard_decoded(text),
        Base64Format::UrlSafeNoPad => base64_url_safe_decoded(text),
    }
}

#[verifier::external_type_specification]
#[verifier::external_body]
pub struct ExDecodeError(base64::DecodeError);

/// `Engine::encode` of `base64::engine::general_purpose::STANDARD`: standard
/// alphabet, `=` padding.
#[verifier::external_body]
fn encode_standard(data: &[u8]) -> (s: String)
    ensures
        s@ == base64_standard(data@),
{
    STANDARD.encode(data)
}

/// `Engine::encode` of `base64::engine::general_purpose::URL_SAFE_NO_PAD`:
/// URL-safe alphabet, no padding.
#[verifier::external_body]
fn encode_url_safe(data: &[u8]) -> (s: String)
    ensures
        s@ == base64_url_safe(data@),
{
    URL_SAFE_NO_PAD.encode(data)
}

/// `Engine::decode` of `STANDARD` on the bytes of `text`. The engine
/// requires canonical padding and zero trailing bits, so it succeeds exactly
/// when the text is the encoding of some bytes, and gives those bytes (the
/// encoding is one-to-one).
#[verifier::external_body]
fn decode_standard(text: &str) -> (r: Result<Vec<u8>, base64::DecodeError>)
    ensures
        r is Ok <==> exists|d: Seq<u8>| #[trigger] base64_standard(d) == text@,
        r matches Ok(v) ==> base64_standard(v@) == text@,
        r matches Ok(v) ==> forall|d: Seq<u8>| #[trigger] base64_standard(d) == text@ ==> v@ == d,
{
    STANDARD.decode(text)
}

/// `Engine::decode` of `URL_SAFE_NO_PAD` on the bytes of `text`. The engine
/// refuses padding and non-zero trailing bits, so it succeeds exactly when
/// the text is the encoding of some bytes, and gives those bytes.
#[verifier::external_body]
fn decode_url_safe(text: &str) -> (r: Result<Vec<u8>, base64::DecodeError>)
    ensures
        r is Ok <==> exists|d: Seq<u8>| #[trigger] base64_url_safe(d) == text@,
        r matches Ok(v) ==> base64_url_safe(v@) == text@,
        r matches Ok(v) ==> forall|d: Seq<u8>| #[trigger] base64_url_safe(d) == text@ ==> v@ == d,
{
    URL_SAFE_NO_PAD.decode(text)
}

/// `String::from_utf8`: a string exactly when the bytes are valid UTF-8,
/// holding the characters they encode.
#[verifier::external_body]
fn string_from_utf8(v: Vec<u8>) -> (r: Option<String>)
    ensures
        r is Some <==> valid_utf8(v@),
        r matches Some(s) ==> s@ == decode_utf8(v@),
{
    String::from_utf8(v).ok()
}

/// Why decoding failed.
#[derive(Debug, PartialEq, Eq)]
pub enum DecodeFailure {
    /// The input is not base64 of the chosen alphabet; the decoder's message.
    Base64(String),
    /// The decoded bytes are not UTF-8 text.
    Utf8,
}

/// Encodes bytes in the given alphabet.
pub fn encode_bytes(data: &[u8], format: Base64Format) -> (s: String)
    ensures
        s@ == encoded(format, data@),
{
    match format {
        Base64Format::Standard => encode_standard(data),
        Base64Format::UrlSafeNoPad => encode_url_safe(data),
    }
}

/// Decodes base64 text of the given alphabet into bytes; `None` when the
/// text is not well formed. Decoding what `encode_bytes` wrote gives the
/// bytes back.
pub fn decode_bytes(text: &str, format: Base64Format) -> (r: Result<Vec<u8>, String>)
    ensures
        r is Ok <==> decoded(format, text@) is Some,
        r matches Ok(v) ==> decoded(format, text@) == Some(v@),
        forall|d: Seq<u8>| #[trigger] encoded(format, d) == text@ ==> (r matches Ok(v) && v@ == d),
{
    let r = match format {
        Base64Format::Standard => decode_standard(text),
        Base64Format::UrlSafeNoPad => decode_url_safe(text),
    };
    match r {
        Ok(v) => Ok(v),
        Err(e) => Err(e.to_string()),
    }
}

/// Encodes the UTF-8 bytes of `input` in base64 of the given alphabet.
pub fn process_encode(input: &str, format: Base64Format) -> (s: String)
    ensures
        s@ == encoded(format, encode_utf8(input@)),
{
    encode_bytes(input.as_bytes(), format)
}

/// Decodes base64 text of the given alphabet into text: fails when the input
/// is not base64 or the bytes are not UTF-8. Decoding the encoding of any text
/// gives that text back.
pub fn process_decode(input: &str, format: Base64Format) -> (r: Result<String, DecodeFailure>)
    ensures
        decoded(format, input@) is None ==> r matches Err(DecodeFailure::Base64(_)),
        decoded(format, input@) matches Some(b) ==> if valid_utf8(b) {
            r matches Ok(s) && s@ == decode_utf8(b)
        } else {
            r matches Err(DecodeFailure::Utf8)
        },
        forall|t: Seq<char>| #[trigger] encoded(format, encode_utf8(t)) == input@ ==> (r matches Ok(
            s,
        ) && s@ == t),
{
    proof {
        broadcast use vstd::utf8::encode_utf8_valid_utf8, vstd::utf8::encode_utf8_decode_utf8;

    }
    match decode_bytes(input, format) {
        Err(m) => Err(DecodeFailure::Base64(m)),
        Ok(v) => match string_from_utf8(v) {
            Some(s) => Ok(s),
            None => Err(DecodeFailure::Utf8),
        },
    }
}

} // verus!

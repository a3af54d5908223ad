use base64::Engine as _;
use vstd::prelude::*;
use vstd::utf8::encode_utf8;

use crate::error::ProxyError;

verus! {

/// What base64's standard, padded engine produces for `data`.
pub uninterp spec fn base64_standard(data: Seq<u8>) -> Seq<char>;

/// Relies on `base64::engine::general_purpose::STANDARD.encode`: the standard
/// alphabet with padding, a function of the bytes alone. Its length overflow
/// panic needs more than `usize::MAX * 3 / 4` bytes, which no slice holds.
#[verifier::external_body]
fn base64_encode(data: &[u8]) -> (r: String)
    ensures
        r@ == base64_standard(data@),
{
    base64::engine::general_purpose::STANDARD.encode(data)
}

/// A character a header value may hold: tab, or any but the ASCII control
/// characters. Every byte of a non-ASCII character is at least 128.
pub open spec fn header_char_ok(c: char) -> bool {
    c == '\t' || (c as u32 >= 32 && c as u32 != 127)
}

pub open spec fn valid_header_text(s: Seq<char>) -> bool {
    forall|i: int| 0 <= i < s.len() ==> header_char_ok(#[trigger] s[i])
}

/// Relies on `HeaderValue::from_str` (http 0.2): it accepts a string exactly
/// when each byte is a tab, or at least 32 and not 127.
#[verifier::external_body]
fn header_value_accepts(s: &str) -> (r: bool)
    ensures
        r == valid_header_text(s@),
{
    hyper::header::HeaderValue::from_str(s).is_ok()
}

/// The user and password of Basic authentication with an installation token.
pub open spec fn basic_credentials(token: Seq<char>) -> Seq<char> {
    "x-access-token:"@ + token
}

pub open spec fn basic_value(token: Seq<char>) -> Seq<char> {
    "Basic "@ + base64_standard(encode_utf8(basic_credentials(token)))
}

pub open spec fn bearer_value(token: Seq<char>) -> Seq<char> {
    "Bearer "@ + token
}

/// The `Authorization` value for a token: Bearer on MCP routes, else Basic.
pub open spec fn auth_value(token: Seq<char>, mcp: bool) -> Seq<char> {
    if mcp {
        bearer_value(token)
    } else {
        basic_value(token)
    }
}

/// `value` once checked as a header value.
pub open spec fn checked_header(value: Seq<char>) -> Result<Seq<char>, ProxyError> {
    if valid_header_text(value) {
        Ok(value)
    } else {
        Err(ProxyError::Header)
    }
}

pub open spec fn result_view(r: Result<String, ProxyError>) -> Result<Seq<char>, ProxyError> {
    match r {
        Ok(s) => Ok(s@),
        Err(e) => Err(e),
    }
}

/// `value`, if a header can carry it.
pub fn check_header_value(value: String) -> (r: Result<String, ProxyError>)
    ensures
        result_view(r) == checked_header(value@),
{
    if header_value_accepts(value.as_str()) {
        Ok(value)
    } else {
        Err(ProxyError::Header)
    }
}

/// `Basic` followed by the base64 of `x-access-token:{token}`.
pub fn build_basic_header(token: &str) -> (r: Result<String, ProxyError>)
    ensures
        result_view(r) == checked_header(basic_value(token@)),
{
    let credentials = String::from_str("x-access-token:").concat(token);
    let encoded = base64_encode(credentials.as_str().as_bytes());
    let value = String::from_str("Basic ").concat(encoded.as_str());
    check_header_value(value)
}

/// `Bearer {token}`.
pub fn build_bearer_header(token: &str) -> (r: Result<String, ProxyError>)
    ensures
        result_view(r) == checked_header(bearer_value(token@)),
{
    let value = String::from_str("Bearer ").concat(token);
    check_header_value(value)
}

/// The `Authorization` value for a route: Bearer for MCP, else Basic.
pub fn build_auth_header(token: &str, mcp: bool) -> (r: Result<String, ProxyError>)
    ensures
        result_view(r) == checked_header(auth_value(token@, mcp)),
{
    if mcp {
        build_bearer_header(token)
    } else {
        build_basic_header(token)
    }
}

} // verus!

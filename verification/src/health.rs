//! Answers of the HTTP health endpoint.
//!
//! `GET /healthz` and `GET /readyz` are answered `200 OK`; every other request
//! gets `404 Not Found`.

use vstd::prelude::*;
use vstd::utf8::{decode_utf8, valid_utf8};
use crate::text::{is_prefix, starts_with};

verus! {

/// The full response to a health probe.
pub const RESPONSE_OK: &'static str =
    "HTTP/1.1 200 OK\r\nContent-Type: text/plain\r\nContent-Length: 2\r\nConnection: close\r\n\r\nOK";

/// The full response to any other request.
pub const RESPONSE_404: &'static str =
    "HTTP/1.1 404 Not Found\r\nContent-Length: 0\r\nConnection: close\r\n\r\n";

/// Calls `std::str::from_utf8`: the text of `bytes` when they are valid UTF-8.
#[verifier::external_body]
fn utf8_text(bytes: &[u8]) -> (r: Option<&str>)
    ensures
        (r is Some) == valid_utf8(bytes@),
        r matches Some(s) ==> s@ == decode_utf8(bytes@),
{
    std::str::from_utf8(bytes).ok()
}

/// A request is a health probe when it is valid UTF-8 that begins with
/// `GET /healthz` or `GET /readyz`.
pub open spec fn is_probe(request: Seq<u8>) -> bool {
    valid_utf8(request) && (is_prefix("GET /healthz"@, decode_utf8(request)) || is_prefix(
        "GET /readyz"@,
        decode_utf8(request),
    ))
}

/// The response to the bytes of a request.
pub fn health_response(request: &[u8]) -> (r: &'static str)
    ensures
        r@ == if is_probe(request@) {
            RESPONSE_OK@
        } else {
            RESPONSE_404@
        },
{
    let text = match utf8_text(request) {
        Some(t) => t,
        None => "",
    };
    proof {
        reveal_strlit("");
        reveal_strlit("GET /healthz");
        reveal_strlit("GET /readyz");
    }
    if starts_with(text, "GET /healthz") || starts_with(text, "GET /readyz") {
        RESPONSE_OK
    } else {
        RESPONSE_404
    }
}

} // verus!

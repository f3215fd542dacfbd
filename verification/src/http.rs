//! HTTP status codes as the request code sees them, and the plain HTTP/1.1 reply the
//! OAuth loopback listener writes.
use vstd::prelude::*;
use vstd::utf8::encode_utf8;

use crate::error::{is_other, Error};
use crate::text::{decimal, decimal_string};

verus! {

broadcast use vstd::string::group_string_axioms;

/// How `reqwest::StatusCode` displays status `code`: the number, a space, and the
/// canonical reason phrase (or `<unknown status code>`).
pub uninterp spec fn spec_status_display(code: u16) -> Seq<char>;

/// Calls `reqwest::StatusCode::from_u16` and its `Display` (through `to_string`).
/// Claimed: `from_u16` accepts every code from 100 to 999, and the text is a function of
/// the code that starts with its decimal digits and a space.
#[verifier::external_body]
fn status_display(code: u16) -> (r: String)
    requires
        100 <= code <= 999,
    ensures
        r@ == spec_status_display(code),
        r@.len() >= 4,
        r@.subrange(0, 4) == decimal(code as nat) + " "@,
{
    reqwest::StatusCode::from_u16(code).unwrap().to_string()
}

/// The text of status `code`, as `StatusCode` displays it.
pub fn status_text(code: u16) -> (r: String)
    requires
        100 <= code <= 999,
    ensures
        r@ == spec_status_display(code),
{
    status_display(code)
}

/// Whether status `code` means success (200 to 299), as `StatusCode::is_success` says.
pub open spec fn success_code(code: u16) -> bool {
    200 <= code < 300
}

/// Whether status `code` means success.
pub fn is_success(code: u16) -> (r: bool)
    ensures
        r == success_code(code),
{
    200 <= code && code < 300
}

/// Text of a failed request: `<what> failed (<status>): <body>`.
pub open spec fn failure_text(what: Seq<char>, code: u16, body: Seq<char>) -> Seq<char> {
    what + " failed ("@ + spec_status_display(code) + "): "@ + body
}

/// The error for a request `what` answered with status `code` and text `body`.
pub fn request_failed(what: &str, code: u16, body: &str) -> (e: Error)
    requires
        100 <= code <= 999,
    ensures
        is_other(e, failure_text(what@, code, body@)),
{
    let mut m = what.to_string();
    m.append(" failed (");
    let s = status_text(code);
    m.append(s.as_str());
    m.append("): ");
    m.append(body);
    Error::Other(m)
}

/// Reason phrase the loopback listener writes for `status`.
pub open spec fn reason_phrase(status: u16) -> Seq<char> {
    if status == 400 {
        "Bad Request"@
    } else if status == 404 {
        "Not Found"@
    } else {
        "OK"@
    }
}

/// The complete HTTP/1.1 reply with `status`, `content_type` and `body`; the length
/// header counts the UTF-8 bytes of the body (as `str::len` gives them).
pub open spec fn http_reply(status: u16, content_type: Seq<char>, body: Seq<char>) -> Seq<char> {
    "HTTP/1.1 "@ + decimal(status as nat) + " "@ + reason_phrase(status) + "\r\nContent-Type: "@
        + content_type + "; charset=utf-8\r\nContent-Length: "@ + decimal(
        (encode_utf8(body).len() as usize) as nat,
    ) + "\r\nConnection: close\r\n\r\n"@ + body
}

/// The reply the OAuth loopback listener writes back to the browser.
pub fn http_response(status: u16, content_type: &str, body: &str) -> (r: String)
    ensures
        r@ == http_reply(status, content_type@, body@),
{
    let mut r = "HTTP/1.1 ".to_string();
    let code = decimal_string(status as u64);
    r.append(code.as_str());
    r.append(" ");
    let reason = if status == 200 {
        "OK"
    } else if status == 400 {
        "Bad Request"
    } else if status == 404 {
        "Not Found"
    } else {
        "OK"
    };
    r.append(reason);
    r.append("\r\nContent-Type: ");
    r.append(content_type);
    r.append("; charset=utf-8\r\nContent-Length: ");
    let len = decimal_string(body.len() as u64);
    r.append(len.as_str());
    r.append("\r\nConnection: close\r\n\r\n");
    r.append(body);
    proof {
        reveal_strlit("OK");
        reveal_strlit("Bad Request");
        reveal_strlit("Not Found");
    }
    r
}

} // verus!

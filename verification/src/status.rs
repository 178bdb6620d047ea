//! Status codes, their reason phrases, and the status line.

use vstd::prelude::*;
use vstd::string::*;
use crate::text::{decimal, decimal_string};

verus! {

/// The one protocol version that requests may carry and that every
/// response announces.
pub open spec fn http_version() -> Seq<char> {
    "HTTP/1.1"@
}

/// The fixed reason phrase of a status code. A code outside the table reads
/// as an internal server error.
pub open spec fn reason_phrase(code: u32) -> Seq<char> {
    if code == 200 {
        "OK"@
    } else if code == 301 {
        "Moved Permanently"@
    } else if code == 302 {
        "Found"@
    } else if code == 303 {
        "See Other"@
    } else if code == 305 {
        "Use Proxy"@
    } else if code == 307 {
        "Temporary Redirect"@
    } else if code == 404 {
        "Not Found"@
    } else if code == 405 {
        "Method Not Allowed"@
    } else if code == 505 {
        "HTTP Version Not Supported"@
    } else {
        "Internal Server Error"@
    }
}

/// The status line of a response with the given code, CR LF included.
pub open spec fn status_line(code: u32) -> Seq<char> {
    http_version() + " "@ + decimal(code as nat) + " "@ + reason_phrase(code) + "\r\n"@
}

/// Looks up the reason phrase of `code`.
pub fn reason(code: u32) -> (r: &'static str)
    ensures
        r@ == reason_phrase(code),
{
    if code == 200 {
        "OK"
    } else if code == 301 {
        "Moved Permanently"
    } else if code == 302 {
        "Found"
    } else if code == 303 {
        "See Other"
    } else if code == 305 {
        "Use Proxy"
    } else if code == 307 {
        "Temporary Redirect"
    } else if code == 404 {
        "Not Found"
    } else if code == 405 {
        "Method Not Allowed"
    } else if code == 505 {
        "HTTP Version Not Supported"
    } else {
        "Internal Server Error"
    }
}

/// Builds the status line that opens a response with the given code.
pub fn format_status_line(code: u32) -> (line: String)
    ensures
        line@ == status_line(code),
{
    let mut line = "HTTP/1.1".to_owned();
    line.append(" ");
    let digits = decimal_string(code);
    line.append(digits.as_str());
    line.append(" ");
    line.append(reason(code));
    line.append("\r\n");
    line
}

} // verus!

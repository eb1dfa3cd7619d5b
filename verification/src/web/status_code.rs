//! The table of status codes: reason phrases, which codes carry a body, and
//! the headers that a status brings with it.

use vstd::prelude::*;
use vstd::string::*;
use crate::web::common::{HttpResponse, ResponseView};

verus! {

/// The reason phrase of a status code; `Unknown` for a code without one.
pub open spec fn status_phrase(code: u16) -> Seq<char> {
    match code {
        100 => "Continue"@,
        101 => "Switching Protocols"@,
        102 => "Processing"@,
        103 => "Early Hints"@,
        200 => "OK"@,
        201 => "Created"@,
        202 => "Accepted"@,
        203 => "Non-Authoritative Information"@,
        204 => "No Content"@,
        205 => "Reset Content"@,
        206 => "Partial Content"@,
        207 => "Multi-Status"@,
        208 => "Already Reported"@,
        226 => "IM Used"@,
        300 => "Multiple Choices"@,
        301 => "Moved Permanently"@,
        302 => "Found"@,
        303 => "See Other"@,
        304 => "Not Modified"@,
        305 => "Use Proxy"@,
        307 => "Temporary Redirect"@,
        308 => "Permanent Redirect"@,
        400 => "Bad Request"@,
        401 => "Unauthorized"@,
        402 => "Payment Required"@,
        403 => "Forbidden"@,
        404 => "Not Found"@,
        405 => "Method Not Allowed"@,
        406 => "Not Acceptable"@,
        407 => "Proxy Authentication Required"@,
        408 => "Request Timeout"@,
        409 => "Conflict"@,
        410 => "Gone"@,
        411 => "Length Required"@,
        412 => "Precondition Failed"@,
        413 => "Payload Too Large"@,
        414 => "URI Too Long"@,
        415 => "Unsupported Media Type"@,
        416 => "Range Not Satisfiable"@,
        417 => "Expectation Failed"@,
        418 => "I'm a teapot"@,
        421 => "Misdirected Request"@,
        422 => "Unprocessable Entity"@,
        423 => "Locked"@,
        424 => "Failed Dependency"@,
        425 => "Too Early"@,
        426 => "Upgrade Required"@,
        428 => "Precondition Required"@,
        429 => "Too Many Requests"@,
        431 => "Request Header Fields Too Large"@,
        451 => "Unavailable For Legal Reasons"@,
        500 => "Internal Server Error"@,
        501 => "Not Implemented"@,
        502 => "Bad Gateway"@,
        503 => "Service Unavailable"@,
        504 => "Gateway Timeout"@,
        505 => "HTTP Version Not Supported"@,
        506 => "Variant Also Negotiates"@,
        507 => "Insufficient Storage"@,
        508 => "Loop Detected"@,
        510 => "Not Extended"@,
        511 => "Network Authentication Required"@,
        _ => "Unknown"@,
    }
}

/// The reason phrase of a status code; `Unknown` for a code without one.
pub fn get_status_phrase(code: u16) -> (r: &'static str)
    ensures
        r@ == status_phrase(code),
{
    match code {
        100 => "Continue",
        101 => "Switching Protocols",
        102 => "Processing",
        103 => "Early Hints",
        200 => "OK",
        201 => "Created",
        202 => "Accepted",
        203 => "Non-Authoritative Information",
        204 => "No Content",
        205 => "Reset Content",
        206 => "Partial Content",
        207 => "Multi-Status",
        208 => "Already Reported",
        226 => "IM Used",
        300 => "Multiple Choices",
        301 => "Moved Permanently",
        302 => "Found",
        303 => "See Other",
        304 => "Not Modified",
        305 => "Use Proxy",
        307 => "Temporary Redirect",
        308 => "Permanent Redirect",
        400 => "Bad Request",
        401 => "Unauthorized",
        402 => "Payment Required",
        403 => "Forbidden",
        404 => "Not Found",
        405 => "Method Not Allowed",
        406 => "Not Acceptable",
        407 => "Proxy Authentication Required",
        408 => "Request Timeout",
        409 => "Conflict",
        410 => "Gone",
        411 => "Length Required",
        412 => "Precondition Failed",
        413 => "Payload Too Large",
        414 => "URI Too Long",
        415 => "Unsupported Media Type",
        416 => "Range Not Satisfiable",
        417 => "Expectation Failed",
        418 => "I'm a teapot",
        421 => "Misdirected Request",
        422 => "Unprocessable Entity",
        423 => "Locked",
        424 => "Failed Dependency",
        425 => "Too Early",
        426 => "Upgrade Required",
        428 => "Precondition Required",
        429 => "Too Many Requests",
        431 => "Request Header Fields Too Large",
        451 => "Unavailable For Legal Reasons",
        500 => "Internal Server Error",
        501 => "Not Implemented",
        502 => "Bad Gateway",
        503 => "Service Unavailable",
        504 => "Gateway Timeout",
        505 => "HTTP Version Not Supported",
        506 => "Variant Also Negotiates",
        507 => "Insufficient Storage",
        508 => "Loop Detected",
        510 => "Not Extended",
        511 => "Network Authentication Required",
        _ => "Unknown",
    }
}

/// Whether a response with this status carries a body: all but 204 and 304 do.
pub open spec fn status_has_body(code: u16) -> bool {
    code != 204 && code != 304
}

/// Whether a response with this status carries a body.
pub fn should_have_response_body(code: u16) -> (r: bool)
    ensures
        r == status_has_body(code),
{
    match code {
        204 | 304 => false,
        _ => true,
    }
}

/// The header that a status brings with it, if it brings one.
pub open spec fn status_header(code: u16) -> Option<(Seq<char>, Seq<char>)> {
    if code == 301 || code == 302 || code == 303 || code == 305 || code == 307 || code == 308 {
        Some(("Location"@, "/"@))
    } else if code == 401 {
        Some(("WWW-Authenticate"@, "Basic realm=\"test\""@))
    } else if code == 405 {
        Some(("Allow"@, "GET, POST, PUT, DELETE, PATCH, HEAD, OPTIONS"@))
    } else if code == 407 {
        Some(("Proxy-Authenticate"@, "Basic realm=\"proxy\""@))
    } else if code == 416 {
        Some(("Content-Range"@, "bytes */0"@))
    } else if code == 426 {
        Some(("Upgrade"@, "TLS/1.0, HTTP/1.1"@))
    } else if code == 429 || code == 503 {
        Some(("Retry-After"@, "60"@))
    } else if code == 511 {
        Some(("WWW-Authenticate"@, "Basic realm=\"network\""@))
    } else {
        None
    }
}

/// The headers of a response after the header of the status, if it brings
/// one, was added behind them.
pub open spec fn with_status_header(
    headers: Seq<(Seq<char>, Seq<char>)>,
    code: u16,
) -> Seq<(Seq<char>, Seq<char>)> {
    match status_header(code) {
        Some(h) => headers.push(h),
        None => headers,
    }
}

/// Adds the header that the status brings with it; the response is otherwise
/// unchanged, and wholly so for a status that brings none. Neither the
/// status that the response already carries nor whether it has a body
/// matters to the header.
pub fn apply_status_headers(
    response: HttpResponse,
    status_code: u16,
    _status: u16,
    _has_body: bool,
) -> (r: HttpResponse)
    ensures
        r@ == (ResponseView {
            headers: with_status_header(response@.headers, status_code),
            ..response@
        }),
{
    match status_code {
        301 | 302 | 303 | 305 | 307 | 308 => response.with_header("Location", "/"),
        401 => response.with_header("WWW-Authenticate", "Basic realm=\"test\""),
        405 => response.with_header("Allow", "GET, POST, PUT, DELETE, PATCH, HEAD, OPTIONS"),
        407 => response.with_header("Proxy-Authenticate", "Basic realm=\"proxy\""),
        416 => response.with_header("Content-Range", "bytes */0"),
        426 => response.with_header("Upgrade", "TLS/1.0, HTTP/1.1"),
        429 | 503 => response.with_header("Retry-After", "60"),
        511 => response.with_header("WWW-Authenticate", "Basic realm=\"network\""),
        _ => response,
    }
}

} // verus!

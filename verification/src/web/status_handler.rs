//! Answers with whatever status the path asks for.

use vstd::prelude::*;
use vstd::string::*;
use vstd::utf8::*;
use crate::text::{
    before_first, chars_of, decimal, find_char, has_prefix, lemma_index_of, parse_number,
    parse_unsigned, push_decimal, push_str, starts_with, string_of,
};
use crate::web::common::{create_error_response, plain_text, HttpResponse, ResponseView};
use crate::web::status_code::{
    apply_status_headers, get_status_phrase, should_have_response_body, status_has_body,
    status_phrase, with_status_header,
};

verus! {

/// The status code that a path below `/status/` asks for: the piece of the
/// path behind the prefix and before the next slash, read as a number from
/// 100 to 599.
pub open spec fn requested_status(path: Seq<char>) -> Option<u16> {
    let segment = before_first(path.skip("/status/"@.len() as int), '/');
    match parse_unsigned(segment, 599) {
        Some(n) => if n >= 100 {
            Some(n as u16)
        } else {
            None
        },
        None => None,
    }
}

/// The body of the response that emulates a status.
pub open spec fn status_body(code: u16) -> Seq<char> {
    if code == 418 {
        "I'm a teapot"@
    } else if status_has_body(code) {
        decimal(code as nat) + " "@ + status_phrase(code)
    } else {
        Seq::empty()
    }
}

/// The response that emulates a status: the status itself; for a status with
/// a body, the body as plain text; and the header that the status brings.
pub open spec fn emulated_status(code: u16) -> ResponseView {
    if status_has_body(code) {
        ResponseView {
            status: code,
            content_type: Some("text/plain; charset=utf-8"@),
            headers: with_status_header(Seq::empty(), code),
            body: encode_utf8(status_body(code)),
        }
    } else {
        ResponseView {
            status: code,
            content_type: None,
            headers: with_status_header(Seq::empty(), code),
            body: Seq::empty(),
        }
    }
}

/// The response to a request for `path`.
pub open spec fn status_response(path: Seq<char>) -> ResponseView {
    if !starts_with(path, "/status/"@) {
        plain_text(404, "Not Found"@)
    } else {
        match requested_status(path) {
            Some(code) => emulated_status(code),
            None => plain_text(400, "Invalid status code"@),
        }
    }
}

/// Answers `/status/<code>` with that status. A path that does not begin
/// with `/status/` gets 404; a code that is no number from 100 to 599 gets
/// 400 `Invalid status code`.
pub fn handle_status_request(path: &str) -> (r: HttpResponse)
    ensures
        r@ == status_response(path@),
{
    let chars = chars_of(path);
    let prefix = chars_of("/status/");
    if !has_prefix(chars.as_slice(), prefix.as_slice()) {
        return create_error_response(404, "Not Found");
    }
    let rest = &chars[prefix.len()..chars.len()];
    assert(rest@ == path@.skip("/status/"@.len() as int));
    let end = find_char(rest, '/');
    proof {
        lemma_index_of(rest@, '/');
    }
    let segment = &rest[0..end];
    let status_code: u16 = match parse_number(segment, 599) {
        Some(n) => if n >= 100 {
            n as u16
        } else {
            return create_error_response(400, "Invalid status code");
        },
        None => {
            return create_error_response(400, "Invalid status code");
        },
    };
    assert(requested_status(path@) == Some(status_code));
    let has_body = should_have_response_body(status_code);
    let response = if has_body {
        let mut body: Vec<char> = Vec::new();
        if status_code == 418 {
            push_str(&mut body, "I'm a teapot");
        } else {
            push_decimal(&mut body, status_code as u64);
            push_str(&mut body, " ");
            push_str(&mut body, get_status_phrase(status_code));
        }
        assert(body@ =~= status_body(status_code));
        let text = string_of(body.as_slice());
        HttpResponse::from_string(text.as_str()).with_status_code(status_code).with_content_type(
            "text/plain; charset=utf-8",
        )
    } else {
        HttpResponse::from_data(Vec::new()).with_status_code(status_code)
    };
    apply_status_headers(response, status_code, status_code, has_body)
}

} // verus!

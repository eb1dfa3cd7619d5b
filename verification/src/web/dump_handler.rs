//! Echoes a request back as a description of what was received.

use vstd::prelude::*;
use vstd::string::*;
use vstd::utf8::*;
use crate::text::{
    after_first, before_first, chars_of, contains_run, find_char, has_prefix, has_run_text,
    lemma_index_of, push_chars, split, split_chars, starts_with, string_of, text_view, utf8_text,
    views,
};
use crate::web::common::{
    create_error_response, plain_text, HttpRequest, HttpResponse, RequestHeader, ResponseView,
};

verus! {

/// A JSON value as `serde_json` holds it; nothing is read from it here.
#[verifier::external_type_specification]
#[verifier::external_body]
pub struct ExJsonValue(serde_json::Value);

/// What `serde_json::from_str` says against a text that it is to read as a
/// value: `None` where it accepts the text, and else the message of its
/// error.
pub uninterp spec fn json_parse_error(text: Seq<char>) -> Option<Seq<char>>;

/// Calls `serde_json::from_str` for a `serde_json::Value`. Whether it
/// succeeds, and the message of its error where it does not, are functions
/// of the text alone.
#[verifier::external_body]
fn parse_json(text: &str) -> (r: Result<serde_json::Value, String>)
    ensures
        r is Ok <==> json_parse_error(text@) is None,
        r matches Err(m) ==> json_parse_error(text@) == Some(m@),
{
    match serde_json::from_str::<serde_json::Value>(text) {
        Ok(value) => Ok(value),
        Err(e) => Err(e.to_string()),
    }
}

/// The body of a request read as JSON.
pub enum ParsedBody {
    /// The value that the body stands for.
    Value(serde_json::Value),
    /// The body is not JSON; the text says why.
    Failure(String),
}

/// The description of a request that the dump endpoint answers with.
pub struct DumpResponse {
    pub method: String,
    /// The path behind the `/dump` prefix.
    pub path: String,
    /// The query parameters in order, each a key and a value; `None` for a
    /// request without a query.
    pub query: Option<Vec<(String, String)>>,
    /// The headers in order, each a name and a value.
    pub headers: Vec<(String, String)>,
    /// The body as text, if there is one and it is UTF-8.
    pub body: Option<String>,
    /// The body read as JSON, where the request says that it is JSON.
    pub parsed_body: Option<ParsedBody>,
}

/// The texts of a list of pairs of strings.
pub open spec fn pair_views(pairs: Seq<(String, String)>) -> Seq<(Seq<char>, Seq<char>)> {
    Seq::new(pairs.len(), |i: int| (pairs[i].0@, pairs[i].1@))
}

/// The names and the bytes of the values of a list of request headers.
pub open spec fn request_header_views(headers: Seq<RequestHeader>) -> Seq<(Seq<char>, Seq<u8>)> {
    Seq::new(headers.len(), |i: int| (headers[i].field@, headers[i].value@))
}

/// The path that a dump reports: a slash and what stands behind `/dump/` in
/// the request target before its query; `/` where nothing does.
pub open spec fn dump_path(url: Seq<char>) -> Seq<char> {
    let full = before_first(url, '?');
    if starts_with(full, "/dump/"@) {
        "/"@ + full.skip("/dump/"@.len() as int)
    } else {
        "/"@
    }
}

/// The key and the value of a query parameter: what stands before and behind
/// its first `=`; a parameter without one is a key with an empty value.
pub open spec fn query_pair(param: Seq<char>) -> (Seq<char>, Seq<char>) {
    match after_first(param, '=') {
        Some(value) => (before_first(param, '='), value),
        None => (param, Seq::empty()),
    }
}

/// The keys and values of the parameters that are not empty, in order.
pub open spec fn query_pairs(params: Seq<Seq<char>>) -> Seq<(Seq<char>, Seq<char>)>
    decreases params.len(),
{
    if params.len() == 0 {
        Seq::empty()
    } else if params.last().len() == 0 {
        query_pairs(params.drop_last())
    } else {
        query_pairs(params.drop_last()).push(query_pair(params.last()))
    }
}

/// The query that a dump reports: the parameters between `&` of what stands
/// behind the first `?` of the request target.
pub open spec fn dump_query(url: Seq<char>) -> Option<Seq<(Seq<char>, Seq<char>)>> {
    match after_first(url, '?') {
        Some(q) => Some(query_pairs(split(q, '&'))),
        None => None,
    }
}

/// The headers that a dump reports: those whose value is UTF-8, in order.
pub open spec fn dump_headers(headers: Seq<(Seq<char>, Seq<u8>)>) -> Seq<(Seq<char>, Seq<char>)>
    decreases headers.len(),
{
    if headers.len() == 0 {
        Seq::empty()
    } else if valid_utf8(headers.last().1) {
        dump_headers(headers.drop_last()).push((headers.last().0, decode_utf8(headers.last().1)))
    } else {
        dump_headers(headers.drop_last())
    }
}

/// The body that a dump reports: the text of a body that was read, is not
/// empty and is UTF-8.
pub open spec fn dump_body(body: Option<Seq<u8>>) -> Option<Seq<char>> {
    match body {
        Some(b) => if b.len() > 0 && valid_utf8(b) {
            Some(decode_utf8(b))
        } else {
            None
        },
        None => None,
    }
}

/// A character with an ASCII capital letter made small.
pub open spec fn ascii_lower(c: char) -> char {
    if 'A' <= c <= 'Z' {
        ((c as u8) + 32) as u8 as char
    } else {
        c
    }
}

/// Whether two texts are the same but for the case of ASCII letters.
pub open spec fn eq_ignore_ascii_case(a: Seq<char>, b: Seq<char>) -> bool {
    a.len() == b.len() && forall|i: int|
        0 <= i < a.len() ==> ascii_lower(#[trigger] a[i]) == ascii_lower(b[i])
}

fn lower(c: char) -> (r: char)
    ensures
        r == ascii_lower(c),
{
    if 'A' <= c && c <= 'Z' {
        ((c as u8) + 32) as char
    } else {
        c
    }
}

fn same_ignoring_case(a: &[char], b: &[char]) -> (r: bool)
    ensures
        r == eq_ignore_ascii_case(a@, b@),
{
    if a.len() != b.len() {
        return false;
    }
    let mut i: usize = 0;
    while i < a.len()
        invariant
            i <= a.len(),
            a.len() == b.len(),
            forall|j: int| 0 <= j < i ==> ascii_lower(#[trigger] a@[j]) == ascii_lower(b@[j]),
        decreases a.len() - i,
    {
        if lower(a[i]) != lower(b[i]) {
            assert(ascii_lower(a@[i as int]) != ascii_lower(b@[i as int]));
            return false;
        }
        i += 1;
    }
    true
}

/// Whether a header says that the body is JSON: its name is `content-type`
/// in any case, and its value holds `json`.
pub open spec fn announces_json(header: (Seq<char>, Seq<char>)) -> bool {
    eq_ignore_ascii_case(header.0, "content-type"@) && contains_run(header.1, "json"@)
}

/// Whether one of the headers says that the body is JSON.
pub open spec fn wants_json(headers: Seq<(Seq<char>, Seq<char>)>) -> bool {
    exists|i: int| 0 <= i < headers.len() && announces_json(#[trigger] headers[i])
}

fn any_announces_json(headers: &Vec<(String, String)>) -> (r: bool)
    ensures
        r == wants_json(pair_views(headers@)),
{
    let name = chars_of("content-type");
    let mut i: usize = 0;
    while i < headers.len()
        invariant
            i <= headers.len(),
            name@ == "content-type"@,
            forall|j: int| 0 <= j < i ==> !announces_json(#[trigger] pair_views(headers@)[j]),
        decreases headers.len() - i,
    {
        let key = chars_of(headers[i].0.as_str());
        let value = chars_of(headers[i].1.as_str());
        if same_ignoring_case(key.as_slice(), name.as_slice()) && has_run_text(
            value.as_slice(),
            "json",
        ) {
            assert(announces_json(pair_views(headers@)[i as int]));
            return true;
        }
        i += 1;
    }
    false
}

/// What a dump reports of the body read as JSON. Nothing, unless there is a
/// body to report and a header announces JSON; then the parsed value, or
/// for a body that is not JSON a text that begins with `ERROR: Failed to
/// parse JSON body: ` and goes on with the parser's message.
pub open spec fn parsed_body_matches(
    parsed: Option<ParsedBody>,
    body: Option<Seq<char>>,
    headers: Seq<(Seq<char>, Seq<char>)>,
) -> bool {
    match parsed {
        None => body is None || !wants_json(headers),
        Some(ParsedBody::Value(_)) => body is Some && wants_json(headers) && json_parse_error(
            body->0,
        ) is None,
        Some(ParsedBody::Failure(m)) => body is Some && wants_json(headers) && json_parse_error(
            body->0,
        ) is Some && m@ == "ERROR: Failed to parse JSON body: "@ + json_parse_error(body->0)->0,
    }
}

/// The body read as JSON, given what the parser made of it.
pub fn parsed_body_from(outcome: Result<serde_json::Value, String>) -> (r: ParsedBody)
    ensures
        match outcome {
            Ok(v) => r == ParsedBody::Value(v),
            Err(e) => r matches ParsedBody::Failure(m) && m@
                == "ERROR: Failed to parse JSON body: "@ + e@,
        },
{
    match outcome {
        Ok(v) => ParsedBody::Value(v),
        Err(e) => {
            let mut m = "ERROR: Failed to parse JSON body: ".to_string();
            m.append(e.as_str());
            ParsedBody::Failure(m)
        },
    }
}

fn parse_query(query: &[char]) -> (pairs: Vec<(String, String)>)
    ensures
        pair_views(pairs@) == query_pairs(split(query@, '&')),
{
    let params = split_chars(query, '&');
    let mut pairs: Vec<(String, String)> = Vec::new();
    let mut i: usize = 0;
    assert(pair_views(pairs@) =~= Seq::empty());
    while i < params.len()
        invariant
            i <= params.len(),
            pair_views(pairs@) == query_pairs(views(params@).take(i as int)),
        decreases params.len() - i,
    {
        let param = params[i].as_slice();
        assert(views(params@).take(i + 1).drop_last() == views(params@).take(i as int));
        assert(views(params@).take(i + 1).last() == param@);
        if param.len() > 0 {
            proof {
                lemma_index_of(param@, '=');
            }
            let eq = find_char(param, '=');
            let ghost before = pair_views(pairs@);
            if eq < param.len() {
                pairs.push((string_of(&param[0..eq]), string_of(&param[eq + 1..param.len()])));
            } else {
                pairs.push((string_of(param), String::new()));
            }
            assert(pair_views(pairs@) =~= before.push(query_pair(param@)));
        }
        i += 1;
    }
    assert(views(params@).take(params.len() as int) == views(params@));
    pairs
}

fn collect_headers(headers: &Vec<RequestHeader>) -> (pairs: Vec<(String, String)>)
    ensures
        pair_views(pairs@) == dump_headers(request_header_views(headers@)),
{
    let ghost all = request_header_views(headers@);
    let mut pairs: Vec<(String, String)> = Vec::new();
    let mut i: usize = 0;
    assert(pair_views(pairs@) =~= Seq::empty());
    while i < headers.len()
        invariant
            i <= headers.len(),
            all == request_header_views(headers@),
            pair_views(pairs@) == dump_headers(all.take(i as int)),
        decreases headers.len() - i,
    {
        assert(all.take(i + 1).drop_last() == all.take(i as int));
        assert(all.take(i + 1).last() == all[i as int]);
        match utf8_text(headers[i].value.as_slice()) {
            Some(value) => {
                let ghost before = pair_views(pairs@);
                pairs.push((headers[i].field.clone(), value));
                assert(pair_views(pairs@) =~= before.push(
                    (all[i as int].0, decode_utf8(all[i as int].1)),
                ));
            },
            None => {},
        }
        i += 1;
    }
    assert(all.take(headers.len() as int) == all);
    pairs
}

/// The texts of what an optional list of pairs holds.
pub open spec fn query_view(query: Option<Vec<(String, String)>>) -> Option<Seq<(Seq<char>, Seq<char>)>> {
    match query {
        Some(q) => Some(pair_views(q@)),
        None => None,
    }
}

/// The bytes of an optional vector.
pub open spec fn bytes_view(bytes: Option<Vec<u8>>) -> Option<Seq<u8>> {
    match bytes {
        Some(b) => Some(b@),
        None => None,
    }
}

/// Whether `d` describes `request`: its method, the path behind `/dump`, its
/// query parameters and headers in order, its body as text, and the body
/// read as JSON where a header announces JSON.
pub open spec fn describes(d: DumpResponse, request: HttpRequest) -> bool {
    &&& d.method@ == request.method@
    &&& d.path@ == dump_path(request.url@)
    &&& query_view(d.query) == dump_query(request.url@)
    &&& pair_views(d.headers@) == dump_headers(request_header_views(request.headers@))
    &&& text_view(d.body) == dump_body(bytes_view(request.body))
    &&& parsed_body_matches(d.parsed_body, text_view(d.body), pair_views(d.headers@))
}

/// Describes a request.
pub fn handle_dump_request(request: &HttpRequest) -> (d: DumpResponse)
    ensures
        describes(d, *request),
{
    let url = chars_of(request.url.as_str());
    let url = url.as_slice();
    proof {
        lemma_index_of(url@, '?');
    }
    let q = find_char(url, '?');
    let full_path = &url[0..q];
    let prefix = chars_of("/dump/");
    let mut path = chars_of("/");
    if has_prefix(full_path, prefix.as_slice()) {
        push_chars(&mut path, &full_path[prefix.len()..full_path.len()]);
    }
    assert(path@ =~= dump_path(request.url@));
    let query = if q < url.len() {
        Some(parse_query(&url[q + 1..url.len()]))
    } else {
        None
    };
    let headers = collect_headers(&request.headers);
    let body = match &request.body {
        Some(b) => if b.len() > 0 {
            utf8_text(b.as_slice())
        } else {
            None
        },
        None => None,
    };
    let parsed_body = match &body {
        Some(text) => if any_announces_json(&headers) {
            Some(parsed_body_from(parse_json(text.as_str())))
        } else {
            None
        },
        None => None,
    };
    DumpResponse {
        method: request.method.clone(),
        path: string_of(path.as_slice()),
        query,
        headers,
        body,
        parsed_body,
    }
}

/// The answer of the dump endpoint.
pub open spec fn dump_reply_view(json: Option<Seq<char>>) -> ResponseView {
    match json {
        Some(text) => ResponseView {
            status: 200,
            content_type: Some("application/json"@),
            headers: Seq::empty(),
            body: encode_utf8(text),
        },
        None => plain_text(500, "Internal Server Error"@),
    }
}

/// The answer of the dump endpoint, given the description as JSON text:
/// 200 with that text, or 500 where the description could not be written as
/// JSON and `json` is `None`.
pub fn dump_reply(json: Option<String>) -> (r: HttpResponse)
    ensures
        r@ == dump_reply_view(text_view(json)),
{
    match json {
        Some(text) => HttpResponse::from_string(text.as_str()).with_content_type("application/json"),
        None => create_error_response(500, "Internal Server Error"),
    }
}

} // verus!

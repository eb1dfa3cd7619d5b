use mclocks::web::common::create_error_response;
use mclocks::web::status_code::{apply_status_headers, get_status_phrase, should_have_response_body};
use mclocks::web::status_handler::handle_status_request;

fn header<'a>(r: &'a mclocks::web::common::HttpResponse, name: &str) -> Option<&'a str> {
    r.headers.iter().find(|h| h.name == name).map(|h| h.value.as_str())
}

#[test]
fn error_response_is_plain_text() {
    let r = create_error_response(404, "Not Found");
    assert_eq!(r.status, 404);
    assert_eq!(r.body, b"Not Found".to_vec());
    assert_eq!(r.content_type.as_deref(), Some("text/plain; charset=UTF-8"));
    assert!(r.headers.is_empty());
}

#[test]
fn status_phrases() {
    assert_eq!(get_status_phrase(100), "Continue");
    assert_eq!(get_status_phrase(200), "OK");
    assert_eq!(get_status_phrase(404), "Not Found");
    assert_eq!(get_status_phrase(418), "I'm a teapot");
    assert_eq!(get_status_phrase(511), "Network Authentication Required");
    assert_eq!(get_status_phrase(299), "Unknown");
    assert_eq!(get_status_phrase(0), "Unknown");
}

#[test]
fn only_204_and_304_have_no_body() {
    assert!(!should_have_response_body(204));
    assert!(!should_have_response_body(304));
    assert!(should_have_response_body(200));
    assert!(should_have_response_body(418));
    assert!(should_have_response_body(599));
}

#[test]
fn status_418_is_a_teapot() {
    let r = handle_status_request("/status/418");
    assert_eq!(r.status, 418);
    assert_eq!(r.body, b"I'm a teapot".to_vec());
    assert_eq!(r.content_type.as_deref(), Some("text/plain; charset=utf-8"));
    assert!(r.headers.is_empty());
}

#[test]
fn status_204_has_empty_body() {
    let r = handle_status_request("/status/204");
    assert_eq!(r.status, 204);
    assert!(r.body.is_empty());
    assert_eq!(r.content_type, None);
}

#[test]
fn status_304_has_empty_body() {
    let r = handle_status_request("/status/304");
    assert_eq!(r.status, 304);
    assert!(r.body.is_empty());
    assert_eq!(r.content_type, None);
}

#[test]
fn status_600_is_invalid() {
    let r = handle_status_request("/status/600");
    assert_eq!(r.status, 400);
    assert_eq!(r.body, b"Invalid status code".to_vec());
}

#[test]
fn status_below_100_and_unparsable_are_invalid() {
    for path in ["/status/99", "/status/", "/status/abc", "/status/-200", "/status/2 0", "/status/70000", "/status/99999999999999999999999"] {
        let r = handle_status_request(path);
        assert_eq!(r.status, 400, "{}", path);
        assert_eq!(r.body, b"Invalid status code".to_vec());
    }
}

#[test]
fn status_301_has_location() {
    let r = handle_status_request("/status/301");
    assert_eq!(r.status, 301);
    assert_eq!(header(&r, "Location"), Some("/"));
    assert_eq!(r.body, b"301 Moved Permanently".to_vec());
}

#[test]
fn status_body_is_code_and_phrase() {
    assert_eq!(handle_status_request("/status/200").body, b"200 OK".to_vec());
    assert_eq!(handle_status_request("/status/404").body, b"404 Not Found".to_vec());
    assert_eq!(handle_status_request("/status/599").body, b"599 Unknown".to_vec());
    assert_eq!(handle_status_request("/status/100").body, b"100 Continue".to_vec());
}

#[test]
fn status_takes_first_segment_and_plus_sign() {
    assert_eq!(handle_status_request("/status/503/extra/path").status, 503);
    assert_eq!(handle_status_request("/status/+200").status, 200);
    assert_eq!(handle_status_request("/status/0200").status, 200);
}

#[test]
fn status_outside_prefix_is_not_found() {
    let r = handle_status_request("/statusx/200");
    assert_eq!(r.status, 404);
    assert_eq!(r.body, b"Not Found".to_vec());
}

#[test]
fn status_headers_table() {
    for code in [301u16, 302, 303, 305, 307, 308] {
        assert_eq!(header(&handle_status_request(&format!("/status/{}", code)), "Location"), Some("/"));
    }
    assert_eq!(header(&handle_status_request("/status/401"), "WWW-Authenticate"), Some("Basic realm=\"test\""));
    assert_eq!(header(&handle_status_request("/status/511"), "WWW-Authenticate"), Some("Basic realm=\"network\""));
    assert_eq!(header(&handle_status_request("/status/405"), "Allow"), Some("GET, POST, PUT, DELETE, PATCH, HEAD, OPTIONS"));
    assert_eq!(header(&handle_status_request("/status/407"), "Proxy-Authenticate"), Some("Basic realm=\"proxy\""));
    assert_eq!(header(&handle_status_request("/status/416"), "Content-Range"), Some("bytes */0"));
    assert_eq!(header(&handle_status_request("/status/426"), "Upgrade"), Some("TLS/1.0, HTTP/1.1"));
    assert_eq!(header(&handle_status_request("/status/429"), "Retry-After"), Some("60"));
    assert_eq!(header(&handle_status_request("/status/503"), "Retry-After"), Some("60"));
    for code in [200u16, 300, 304, 306, 400, 402, 404, 418, 500, 510] {
        assert!(handle_status_request(&format!("/status/{}", code)).headers.is_empty(), "{}", code);
    }
}

#[test]
fn apply_status_headers_keeps_the_rest() {
    let base = create_error_response(429, "slow down").with_header("X-Test", "1");
    let r = apply_status_headers(base, 429, 429, true);
    assert_eq!(r.status, 429);
    assert_eq!(r.body, b"slow down".to_vec());
    assert_eq!(r.headers.len(), 2);
    assert_eq!(r.headers[0].name, "X-Test");
    assert_eq!(r.headers[1].name, "Retry-After");
    assert_eq!(r.headers[1].value, "60");
    let unchanged = apply_status_headers(create_error_response(404, "x"), 404, 404, true);
    assert!(unchanged.headers.is_empty());
}

use mclocks::web::editor_handler::{
    begin_post, begin_post_at, expand_home, find_unsafe_path_char, finish_post,
    format_command_preview, get_response, github_path_of, handle_editor_request,
    handle_get_request, handle_get_request_with, launch_post,
    post_body_text, quote_arg_for_display, render_editor_args, resolve_post, EditorAction,
    EditorRequest, OpenPlan, PendingOpen, PostResolved, PostStart,
};
use mclocks::web::editor_page::{
    create_error_html_response_with_status, generate_editor_html, js_escape_single_quoted,
};
use mclocks::web::repo_path::{
    get_local_lib_path, normalize_github_path_for_token, parse_repo_path_best_effort,
};
use mclocks::web::token_store::{hex_encode, token_store, TokenStore};
use mclocks::web::common::HttpResponse;
use std::path::PathBuf;

fn body(r: &HttpResponse) -> String {
    String::from_utf8(r.body.clone()).unwrap()
}

fn strings(parts: &[&str]) -> Vec<String> {
    parts.iter().map(|s| s.to_string()).collect()
}

#[test]
fn test_token_one_time_and_path_bound() {
    let mut store = token_store();
    let expected_path = "/o/r/blob/main/src/lib.rs";
    let token = store.issue_one_time_token(expected_path).unwrap();
    assert!(store.consume_one_time_token(&token, expected_path));
    assert!(!store.consume_one_time_token(&token, expected_path));

    let token2 = store.issue_one_time_token(expected_path).unwrap();
    assert!(!store.consume_one_time_token(&token2, "/o/r/blob/main/src/other.rs"));
}

#[test]
fn test_get_local_lib_path_owner_repo_without_host() {
    let github_path = "/o/r/blob/main/src/lib.rs";
    let local: PathBuf = get_local_lib_path(github_path, false).unwrap().iter().collect();
    let expected = std::path::PathBuf::from("o").join("r").join("src").join("lib.rs");
    assert_eq!(local, expected);

    let err = get_local_lib_path(github_path, true).unwrap_err();
    assert!(err.contains("includeHost is true"));
}

#[test]
fn test_get_local_lib_path_with_host_when_enabled() {
    let github_path = "/github.com/o/r/blob/main/src/lib.rs";
    let local: PathBuf = get_local_lib_path(github_path, true).unwrap().iter().collect();
    let expected = std::path::PathBuf::from("github.com").join("o").join("r").join("src").join("lib.rs");
    assert_eq!(local, expected);
}

#[test]
fn test_find_unsafe_path_char() {
    assert_eq!(find_unsafe_path_char("C:\\safe\\path\\file.txt"), None);
    assert_eq!(find_unsafe_path_char("C:\\bad&path\\file.txt"), Some('&'));
    assert_eq!(find_unsafe_path_char("C:\\bad\\path\nfile.txt"), Some('\n'));
}

#[test]
fn unsafe_chars_are_found_in_list_order() {
    assert_eq!(find_unsafe_path_char("a\n\r\"^><|&"), Some('&'));
    assert_eq!(find_unsafe_path_char("a\n\r\"^><|"), Some('|'));
    assert_eq!(find_unsafe_path_char("a\n\r\"^><"), Some('<'));
    assert_eq!(find_unsafe_path_char("a\n\r\"^>"), Some('>'));
    assert_eq!(find_unsafe_path_char("a\n\r\"^"), Some('^'));
    assert_eq!(find_unsafe_path_char("a\n\r\""), Some('"'));
    assert_eq!(find_unsafe_path_char("a\n\r"), Some('\r'));
    assert_eq!(find_unsafe_path_char(""), None);
    assert_eq!(find_unsafe_path_char("/home/u/src/o/r/a b;c$(x)`y`.rs"), None);
}

#[test]
fn tokens_are_32_hex_digits_and_differ() {
    let mut store = TokenStore::new();
    let a = store.issue_one_time_token("/p").unwrap();
    let b = store.issue_one_time_token("/p").unwrap();
    assert_eq!(a.len(), 32);
    assert!(a.chars().all(|c| c.is_ascii_digit() || ('a'..='f').contains(&c)));
    assert_ne!(a, b);
    assert_eq!(store.len(), 2);
}

#[test]
fn hex_encoding() {
    assert_eq!(hex_encode(&[]), "");
    assert_eq!(hex_encode(&[0x00, 0x0f, 0x10, 0xab, 0xff, 0x9a]), "000f10abff9a");
}

#[test]
fn token_expires_after_ttl() {
    let mut store = TokenStore::new();
    store.issue_at("t1".to_string(), "/p", 1000);
    assert!(store.consume_at("t1", "/p", 15_999));
    store.issue_at("t2".to_string(), "/p", 1000);
    assert!(!store.consume_at("t2", "/p", 16_000));
    assert_eq!(store.len(), 0);
    store.issue_at("t3".to_string(), "/p", u64::MAX - 5);
    assert!(store.consume_at("t3", "/p", u64::MAX - 1));
    store.issue_at("t4".to_string(), "/p", u64::MAX - 5);
    assert!(!store.consume_at("t4", "/p", u64::MAX));
}

#[test]
fn wrong_path_uses_the_token_up() {
    let mut store = TokenStore::new();
    store.issue_at("t".to_string(), "/a", 0);
    assert!(!store.consume_at("t", "/b", 1));
    assert!(!store.consume_at("t", "/a", 1));
    assert_eq!(store.len(), 0);
}

#[test]
fn unknown_token_is_refused_and_expired_are_pruned() {
    let mut store = TokenStore::new();
    store.issue_at("old".to_string(), "/a", 0);
    store.issue_at("new".to_string(), "/a", 10_000);
    assert_eq!(store.len(), 2);
    assert!(!store.consume_at("nope", "/a", 20_000));
    assert_eq!(store.len(), 1);
    assert!(store.consume_at("new", "/a", 20_000));
}

#[test]
fn at_most_three_tokens_are_kept() {
    let mut store = TokenStore::new();
    store.issue_at("a".to_string(), "/p", 100);
    store.issue_at("b".to_string(), "/p", 200);
    store.issue_at("c".to_string(), "/p", 300);
    store.issue_at("d".to_string(), "/p", 400);
    assert_eq!(store.len(), 3);
    assert!(!store.consume_at("a", "/p", 500));
    assert!(store.consume_at("b", "/p", 500));
    assert!(store.consume_at("c", "/p", 500));
    assert!(store.consume_at("d", "/p", 500));
}

#[test]
fn eviction_takes_the_first_of_equal_expiries() {
    let mut store = TokenStore::new();
    store.issue_at("a".to_string(), "/p", 7);
    store.issue_at("b".to_string(), "/p", 7);
    store.issue_at("c".to_string(), "/p", 7);
    store.issue_at("d".to_string(), "/p", 7);
    assert!(!store.consume_at("a", "/p", 8));
    assert!(store.consume_at("d", "/p", 8));
    assert!(store.consume_at("b", "/p", 8));
}

#[test]
fn a_token_issued_in_the_past_may_be_dropped_at_once() {
    let mut store = TokenStore::new();
    store.issue_at("a".to_string(), "/p", 100_000);
    store.issue_at("b".to_string(), "/p", 100_000);
    store.issue_at("c".to_string(), "/p", 100_000);
    store.issue_at("early".to_string(), "/p", 90_000);
    assert_eq!(store.len(), 3);
    assert!(!store.consume_at("early", "/p", 90_001));
}

#[test]
fn reissuing_a_token_rebinds_it() {
    let mut store = TokenStore::new();
    store.issue_at("t".to_string(), "/a", 0);
    store.issue_at("t".to_string(), "/b", 1);
    assert_eq!(store.len(), 1);
    assert!(store.consume_at("t", "/b", 2));
}

#[test]
fn normalizing_paths() {
    assert_eq!(normalize_github_path_for_token(""), "/");
    assert_eq!(normalize_github_path_for_token("/a/b"), "/a/b");
    assert_eq!(normalize_github_path_for_token("a/b"), "/a/b");
    assert_eq!(normalize_github_path_for_token("//a"), "//a");
}

#[test]
fn parsing_repo_paths() {
    let p = parse_repo_path_best_effort("/o/r/blob/main/src/lib.rs").unwrap();
    assert_eq!(p.host, None);
    assert_eq!((p.owner.as_str(), p.repo.as_str()), ("o", "r"));
    assert_eq!(p.file_path_parts, strings(&["src", "lib.rs"]));
    let p = parse_repo_path_best_effort("github.com/o/r/tree/main/src").unwrap();
    assert_eq!(p.host.as_deref(), Some("github.com"));
    assert_eq!((p.owner.as_str(), p.repo.as_str()), ("o", "r"));
    assert_eq!(p.file_path_parts, strings(&["src"]));
    let p = parse_repo_path_best_effort("/o/r/blob/main").unwrap();
    assert!(p.file_path_parts.is_empty());
    let p = parse_repo_path_best_effort("//o///r/tree//b/x/").unwrap();
    assert_eq!(p.file_path_parts, strings(&["x"]));
    assert!(parse_repo_path_best_effort("/h/o/r/blob/b").is_none());
    let p = parse_repo_path_best_effort("/h/o/blob/r/blob/b").unwrap();
    assert_eq!(p.host, None);
    assert_eq!((p.owner.as_str(), p.repo.as_str()), ("h", "o"));
    assert_eq!(p.file_path_parts, vec!["blob".to_string(), "b".to_string()]);
    let p = parse_repo_path_best_effort("/a/b/blob/blob/c/d").unwrap();
    assert_eq!(p.host.as_deref(), Some("a"));
    assert_eq!(p.file_path_parts, strings(&["d"]));
    assert!(parse_repo_path_best_effort("/o/r/blob").is_none());
    assert!(parse_repo_path_best_effort("/o/r/raw/main/x").is_none());
    assert!(parse_repo_path_best_effort("").is_none());
    assert!(parse_repo_path_best_effort("/h/o/r/x/blob/b").is_none());
}

#[test]
fn local_path_errors() {
    assert_eq!(get_local_lib_path("/x", false).unwrap_err(), "Invalid GitHub path format");
    assert_eq!(
        get_local_lib_path("/o/r/blob/main/f", true).unwrap_err(),
        "includeHost is true but host segment is missing in path"
    );
    assert_eq!(get_local_lib_path("/h/o/r/blob/main/f", false).unwrap(), strings(&["o", "r", "f"]));
}

#[test]
fn quoting_arguments() {
    assert_eq!(quote_arg_for_display("plain"), "plain");
    assert_eq!(quote_arg_for_display("a b"), "\"a b\"");
    assert_eq!(quote_arg_for_display("a\tb"), "\"a\tb\"");
    assert_eq!(quote_arg_for_display("say \"hi\""), "\"say \\\"hi\\\"\"");
    assert_eq!(quote_arg_for_display(""), "");
    assert_eq!(
        format_command_preview("code", &strings(&["-g", "/a b/c.rs:3", "x\"y"])),
        "code -g \"/a b/c.rs:3\" \"x\\\"y\""
    );
    assert_eq!(format_command_preview("my editor", &Vec::new()), "my editor");
}

#[test]
fn rendering_arguments() {
    let args = strings(&["-g", "{file}:{line}", "{line}{line}", "{file", "x{file}y{file}", "{{file}}"]);
    assert_eq!(
        render_editor_args(&args, "/r/a.rs", 42),
        strings(&["-g", "/r/a.rs:42", "4242", "{file", "x/r/a.rsy/r/a.rs", "{/r/a.rs}"])
    );
    assert_eq!(render_editor_args(&strings(&["{line}"]), "f", 0), strings(&["0"]));
    assert_eq!(render_editor_args(&strings(&["{line}"]), "f", u32::MAX), strings(&["4294967295"]));
    assert_eq!(render_editor_args(&strings(&["{file}"]), "a{line}b", 7), strings(&["a7b"]));
}

#[test]
fn escaping_for_scripts() {
    assert_eq!(js_escape_single_quoted("a'b\\c"), "a\\'b\\\\c");
    assert_eq!(js_escape_single_quoted("0123abcdef"), "0123abcdef");
    assert_eq!(js_escape_single_quoted("\\'"), "\\\\\\'");
}

#[test]
fn editor_page_carries_the_token() {
    let html = generate_editor_html("/o/r/blob/main/a.rs", "abc'123");
    assert_eq!(html, generate_editor_html("/", "abc'123"));
    assert!(html.starts_with("<!DOCTYPE html>\n<html>\n<head>\n<meta charset=\"utf-8\">\n<style>\nbody {\n\tfont-family: monospace;"));
    assert!(html.contains("let data = new Object();\ndata.token = 'abc\\'123';\nlet pathname = document.location.pathname;"));
    assert!(html.contains("request.open('POST', '/editor');"));
    assert!(html.contains("if (pathname.startsWith('/editor')) {\n\tpathname = pathname.substring(7); // Remove '/editor'\n"));
    assert!(html.ends_with("request.send(JSON.stringify(data));\n</script>\n</body>\n</html>"));
    assert_eq!(html.len(), 604 + 8 + 1020);
}

#[test]
fn error_page_sections() {
    let r = create_error_html_response_with_status(404, "File <not> found", Some("o/r"), Some("https://h/o/r"), Some("/src/o/r/a&b.rs"), Some("code \"x\""));
    assert_eq!(r.status, 404);
    assert_eq!(r.content_type.as_deref(), Some("text/html; charset=utf-8"));
    let html = body(&r);
    assert!(html.contains("<div class=\"error\">\n\t<h2>Error</h2>\n\t<p>File &lt;not&gt; found</p>\n\t\n<div class=\"details\">\n\t<p>Local path:</p>\n\t<pre>/src/o/r/a&amp;b.rs</pre>\n\t\n\t<p>Command:</p>\n\t<pre>code &quot;x&quot;</pre>\n</div>\n\t\n<div class=\"repo-link\">\n\t<p>If you don't have this repository locally, clone it first.</p>\n\t<p>From <a href=\"https://h/o/r\" target=\"_blank\">o/r</a></p>\n</div>\n</div>\n</body>\n</html>"));
    let bare = body(&create_error_html_response_with_status(400, "m", None, Some("ignored"), None, Some("ignored")));
    assert!(bare.ends_with("<div class=\"error\">\n\t<h2>Error</h2>\n\t<p>m</p>\n\t\n\t\n</div>\n</body>\n</html>"));
    assert!(!bare.contains("ignored"));
    let default_link = body(&create_error_html_response_with_status(400, "m", Some("o/r"), None, Some("/p"), None));
    assert!(default_link.contains("<a href=\"https://github.com\" target=\"_blank\">o/r</a>"));
    assert!(default_link.contains("<pre>/p</pre>\n\t\n</div>"));
    assert!(!default_link.contains("Command:"));
}

#[test]
fn get_issues_a_token_for_the_path() {
    let mut store = TokenStore::new();
    let r = handle_get_request(&mut store, "/editor/o/r/blob/main/a.rs?x=1#L3");
    assert_eq!(r.status, 200);
    assert_eq!(r.content_type.as_deref(), Some("text/html; charset=utf-8"));
    let html = body(&r);
    let at = html.find("data.token = '").unwrap() + "data.token = '".len();
    let token = &html[at..at + 32];
    assert_eq!(&html[at + 32..at + 34], "';");
    assert_eq!(store.len(), 1);
    assert!(store.consume_one_time_token(token, "/o/r/blob/main/a.rs"));
    let r = handle_get_request(&mut store, "/editor");
    let html = body(&r);
    let at = html.find("data.token = '").unwrap() + "data.token = '".len();
    assert!(store.consume_one_time_token(&html[at..at + 32], "/"));
}

#[test]
fn editor_methods() {
    let mut store = TokenStore::new();
    match handle_editor_request(&mut store, "GET", "/editor/o/r/blob/m/f", &None) {
        EditorAction::Respond(r) => assert_eq!(r.status, 200),
        _ => panic!(),
    }
    assert_eq!(store.len(), 1);
    match handle_editor_request(&mut store, "DELETE", "/editor", &None) {
        EditorAction::Respond(r) => {
            assert_eq!(r.status, 405);
            assert_eq!(r.body, b"Method Not Allowed".to_vec());
        }
        _ => panic!(),
    }
    match handle_editor_request(&mut store, "POST", "/editor", &Some(b"{\"path\":\"x\"}".to_vec())) {
        EditorAction::ReadRequest(text) => assert_eq!(text, "{\"path\":\"x\"}"),
        _ => panic!(),
    }
    match handle_editor_request(&mut store, "POST", "/editor", &Some(vec![0xff])) {
        EditorAction::Respond(r) => {
            assert_eq!(r.status, 400);
            assert!(body(&r).contains("<p>Bad Request: Invalid UTF-8</p>"));
        }
        _ => panic!(),
    }
    match handle_editor_request(&mut store, "POST", "/editor", &None) {
        EditorAction::Respond(r) => {
            assert_eq!(r.status, 400);
            assert!(body(&r).contains("<p>Bad Request: Failed to read request body</p>"));
        }
        _ => panic!(),
    }
    assert_eq!(store.len(), 1);
    assert!(post_body_text(&Some(Vec::new())).is_ok());
}

#[test]
fn home_directory_is_filled_in() {
    assert_eq!(expand_home("~/src", Some("/home/u")), Ok("/home/u/src".to_string()));
    assert_eq!(expand_home("~", Some("/home/u")), Ok("/home/u".to_string()));
    assert_eq!(expand_home("/srv/~x", Some("/home/u")), Ok("/srv/~x".to_string()));
    assert_eq!(expand_home("/srv", None), Ok("/srv".to_string()));
    assert_eq!(expand_home("~/src", None), Err("HOME or USERPROFILE environment variable not set".to_string()));
    assert_eq!(expand_home("~~", Some("H")), Ok("H~".to_string()));
}

fn request(path: &str, line: Option<u32>, repos_dir: Option<&str>, token: Option<&str>) -> EditorRequest {
    EditorRequest {
        path: path.to_string(),
        line,
        repos_dir: repos_dir.map(|s| s.to_string()),
        token: token.map(|s| s.to_string()),
    }
}

fn rejected(step: PostStart) -> HttpResponse {
    match step {
        PostStart::Respond(r) => r,
        PostStart::CheckReposDir(_) => panic!("the request was not turned down"),
    }
}

#[test]
fn post_without_request_or_token_is_turned_down() {
    let mut store = TokenStore::new();
    store.issue_at("tok".to_string(), "/o/r/blob/m/f", 0);
    let r = rejected(begin_post_at(&mut store, None, &Some("/srv".to_string()), None, 1));
    assert_eq!(r.status, 400);
    assert!(body(&r).contains("<p>Bad Request: Invalid JSON</p>"));
    let q = request("/o/r/blob/m/f", None, None, None);
    let r = rejected(begin_post_at(&mut store, Some(&q), &Some("/srv".to_string()), None, 1));
    assert_eq!(r.status, 403);
    assert!(body(&r).contains("<p>Forbidden: Missing token. Reload and try again.</p>"));
    assert!(body(&r).contains("<a href=\"https://github.com/o/r\" target=\"_blank\">o/r</a>"));
    let q = request("/o/r/blob/m/f", None, None, Some(""));
    let r = rejected(begin_post_at(&mut store, Some(&q), &Some("/srv".to_string()), None, 1));
    assert_eq!(r.status, 403);
    assert!(body(&r).contains("Missing token"));
    assert_eq!(store.len(), 1);
}

#[test]
fn post_with_bad_token_is_forbidden() {
    let mut store = TokenStore::new();
    store.issue_at("tok".to_string(), "/h.example/o/r/blob/m/f", 0);
    let q = request("h.example/o/r/blob/m/other", None, None, Some("tok"));
    let r = rejected(begin_post_at(&mut store, Some(&q), &Some("/srv".to_string()), None, 1));
    assert_eq!(r.status, 403);
    assert!(body(&r).contains("<p>Forbidden: Invalid or expired token. Reload and try again.</p>"));
    assert!(body(&r).contains("<a href=\"https://h.example/o/r\" target=\"_blank\">o/r</a>"));
    assert_eq!(store.len(), 0);
    store.issue_at("tok".to_string(), "/o/r/blob/m/f", 0);
    let q = request("/o/r/blob/m/f", None, None, Some("tok"));
    let r = rejected(begin_post_at(&mut store, Some(&q), &Some("/srv".to_string()), None, 15_000));
    assert_eq!(r.status, 403);
    let q = request("/not/a/repo", None, None, Some("zzz"));
    let r = rejected(begin_post_at(&mut store, Some(&q), &None, None, 0));
    assert_eq!(r.status, 403);
    assert!(!body(&r).contains("repo-link\">"));
}

#[test]
fn post_needs_a_directory_of_clones() {
    let mut store = TokenStore::new();
    store.issue_at("tok".to_string(), "/o/r/blob/m/f", 0);
    let q = request("/o/r/blob/m/f", None, None, Some("tok"));
    let r = rejected(begin_post_at(&mut store, Some(&q), &None, Some("/home/u"), 1));
    assert_eq!(r.status, 404);
    assert!(body(&r).contains("<p>Not Found: web.editor.reposDir not configured</p>"));
    store.issue_at("tok".to_string(), "/o/r/blob/m/f", 0);
    let r = rejected(begin_post_at(&mut store, Some(&q), &Some("~/src".to_string()), None, 1));
    assert_eq!(r.status, 404);
    assert!(body(&r).contains("<p>Not Found: HOME or USERPROFILE environment variable not set</p>"));
}

fn accepted(store: &mut TokenStore, q: &EditorRequest, configured: Option<&str>, home: Option<&str>) -> PendingOpen {
    store.issue_at("tok".to_string(), &normalize_github_path_for_token(&q.path), 0);
    match begin_post_at(store, Some(q), &configured.map(|s| s.to_string()), home, 1) {
        PostStart::CheckReposDir(p) => p,
        PostStart::Respond(r) => panic!("turned down with {}", r.status),
    }
}

#[test]
fn post_with_good_token_goes_on() {
    let mut store = TokenStore::new();
    let q = request("o/r/blob/m/src/a.rs", Some(12), None, Some("tok"));
    let p = accepted(&mut store, &q, Some("~/src"), Some("/home/u"));
    assert_eq!(p.repos_dir, "/home/u/src");
    assert_eq!(p.github_path, "/o/r/blob/m/src/a.rs");
    assert_eq!(p.line, 12);
    assert_eq!(p.link.owner_repo.as_deref(), Some("o/r"));
    assert_eq!(p.link.href.as_deref(), Some("https://github.com/o/r"));
    assert_eq!(store.len(), 0);
    let q = request("/o/r/blob/m/src/a.rs", None, Some("/other"), Some("tok"));
    let p = accepted(&mut store, &q, Some("/srv"), None);
    assert_eq!(p.repos_dir, "/other");
    assert_eq!(p.line, 1);
}

#[test]
fn begin_post_reads_the_clock() {
    let mut store = TokenStore::new();
    let token = store.issue_one_time_token("/o/r/blob/m/f").unwrap();
    let q = request("/o/r/blob/m/f", None, None, Some(&token));
    assert!(matches!(begin_post(&mut store, Some(&q), &Some("/srv".to_string()), None), PostStart::CheckReposDir(_)));
    assert!(matches!(begin_post(&mut store, Some(&q), &Some("/srv".to_string()), None), PostStart::Respond(_)));
}

fn plan_for(path: &str, dir: &str, include_host: bool, line: Option<u32>) -> OpenPlan {
    let mut store = TokenStore::new();
    let q = request(path, line, None, Some("tok"));
    let p = accepted(&mut store, &q, Some(dir), None);
    match resolve_post(p, true, true, include_host, "code", &strings(&["-g", "{file}:{line}"])) {
        PostResolved::CheckFile(plan) => plan,
        PostResolved::Respond(r) => panic!("turned down with {}", r.status),
    }
}

#[test]
fn resolving_the_local_file() {
    let plan = plan_for("/o/r/blob/main/src/a b.rs", "/srv/repos", false, Some(7));
    assert_eq!(plan.local_path, "/srv/repos/o/r/src/a b.rs");
    assert_eq!(PathBuf::from(&plan.local_path), PathBuf::from("/srv/repos").join("o").join("r").join("src").join("a b.rs"));
    assert_eq!(plan.command, "code");
    assert_eq!(plan.args, strings(&["-g", "/srv/repos/o/r/src/a b.rs:7"]));
    assert_eq!(plan.preview, "code -g \"/srv/repos/o/r/src/a b.rs:7\"");
    let plan = plan_for("/h/o/r/tree/main/x", "/srv/repos/", true, None);
    assert_eq!(plan.local_path, "/srv/repos/h/o/r/x");
    assert_eq!(plan.args, strings(&["-g", "/srv/repos/h/o/r/x:1"]));
    let plan = plan_for("/h/o/r/tree/main/x", "", false, None);
    assert_eq!(plan.local_path, "o/r/x");
}

#[test]
fn resolving_fails_with_404() {
    let mut store = TokenStore::new();
    let check = |store: &mut TokenStore, path: &str, exists: bool, is_dir: bool, include_host: bool| -> String {
        let q = request(path, None, None, Some("tok"));
        let p = accepted(store, &q, Some("/srv/re<pos"), None);
        match resolve_post(p, exists, is_dir, include_host, "code", &Vec::new()) {
            PostResolved::Respond(r) => {
                assert_eq!(r.status, 404);
                body(&r)
            }
            PostResolved::CheckFile(_) => panic!(),
        }
    };
    assert!(check(&mut store, "/x", false, false, false).contains("<p>Not Found: web.editor.reposDir does not exist: /srv/re&lt;pos</p>"));
    assert!(check(&mut store, "/x", true, false, false).contains("<p>Not Found: web.editor.reposDir is not a directory: /srv/re&lt;pos</p>"));
    assert!(check(&mut store, "/x", true, true, false).contains("<p>Not Found: Invalid GitHub path format</p>"));
    let page = check(&mut store, "/o/r/blob/m/f", true, true, true);
    assert!(page.contains("<p>Not Found: includeHost is true but host segment is missing in path</p>"));
    assert!(page.contains(">o/r</a>"));
    assert!(!page.contains("Local path"));
}

#[test]
fn launching() {
    let plan = plan_for("/o/r/blob/main/a.rs", "/srv", false, Some(3));
    let r = launch_post(&plan, false).unwrap();
    assert_eq!(r.status, 404);
    let page = body(&r);
    assert!(page.contains("<p>File not found</p>"));
    assert!(page.contains("<pre>/srv/o/r/a.rs</pre>"));
    assert!(page.contains("<pre>code -g /srv/o/r/a.rs:3</pre>"));
    assert!(page.contains(">o/r</a>"));
    assert!(launch_post(&plan, true).is_none());
    let bad = plan_for("/o/r/blob/main/a|b.rs", "/srv", false, None);
    let r = launch_post(&bad, true).unwrap();
    assert_eq!(r.status, 400);
    assert!(body(&r).contains("<p>Unsafe character &#x27;|&#x27; in local file path</p>"));
    assert!(body(&r).contains("<pre>/srv/o/r/a|b.rs</pre>"));
    assert_eq!(launch_post(&bad, false).unwrap().status, 404);
}

#[test]
fn finishing() {
    let plan = plan_for("/o/r/blob/main/a.rs", "/srv", false, None);
    let r = finish_post(&plan, None);
    assert_eq!(r.status, 200);
    assert_eq!(r.body, b"OK".to_vec());
    assert_eq!(r.content_type.as_deref(), Some("text/plain; charset=UTF-8"));
    let r = finish_post(&plan, Some("Command not found in PATH: code"));
    assert_eq!(r.status, 500);
    let page = body(&r);
    assert!(page.contains("<p>Command not found in PATH: code</p>"));
    assert!(page.contains("<pre>code -g /srv/o/r/a.rs:1</pre>"));
}

#[test]
fn local_path_is_joined_as_paths_are() {
    for (dir, path, include_host) in [
        ("/srv/repos", "/o/r/blob/main/src/a.rs", false),
        ("/srv/repos/", "/o/r/blob/main/src/a.rs", false),
        ("relative/dir", "/h/o/r/tree/b/x/y/z", true),
        ("", "/o/r/blob/main/f", false),
        ("/", "/o/r/blob/main/f", false),
        ("/srv/my repos", "/o/r/blob/main/with space/f.txt", false),
        ("/srv", "/o/r/blob/main", false),
        ("/srv", "/o/r/blob/main/.hidden/..dots", false),
    ] {
        let plan = plan_for(path, dir, include_host, None);
        let mut expected = PathBuf::from(dir);
        for piece in get_local_lib_path(path, include_host).unwrap() {
            expected.push(piece);
        }
        assert_eq!(plan.local_path, expected.display().to_string(), "{} {}", dir, path);
    }
}

#[test]
fn command_is_wrapped_on_windows_only() {
    let plan = plan_for("/o/r/blob/main/a.rs", "/srv", false, Some(9));
    let direct = mclocks::web::editor_handler::command_line(&plan, false);
    assert_eq!(direct.program, "code");
    assert_eq!(direct.args, strings(&["-g", "/srv/o/r/a.rs:9"]));
    let wrapped = mclocks::web::editor_handler::command_line(&plan, true);
    assert_eq!(wrapped.program, "cmd");
    assert_eq!(wrapped.args, strings(&["/C", "code", "-g", "/srv/o/r/a.rs:9"]));
}

#[test]
fn get_with_given_random_bytes() {
    let mut store = TokenStore::new();
    let bytes: [u8; 16] = [0, 1, 2, 3, 4, 5, 6, 7, 8, 9, 10, 11, 12, 13, 14, 255];
    let r = handle_get_request_with(&mut store, "/editor/o/r/blob/m/f?q#L2", Ok(bytes), 100);
    assert_eq!(r.status, 200);
    assert!(body(&r).contains("data.token = '000102030405060708090a0b0c0d0eff';"));
    assert_eq!(store.len(), 1);
    assert!(!store.consume_at("000102030405060708090a0b0c0d0eff", "/o/r/blob/m/f", 15_100));
    let r = handle_get_request_with(&mut store, "/editor/o/r/blob/m/f", Ok(bytes), 100);
    assert_eq!(r.status, 200);
    assert!(store.consume_at("000102030405060708090a0b0c0d0eff", "/o/r/blob/m/f", 15_099));
}

#[test]
fn get_without_random_bytes_is_500() {
    let mut store = TokenStore::new();
    store.issue_at("kept".to_string(), "/p", 0);
    let r = handle_get_request_with(&mut store, "/editor/x", Err(rand::Error::new("none")), 5);
    assert_eq!(r.status, 500);
    assert_eq!(r.body, b"Internal Server Error".to_vec());
    assert_eq!(store.len(), 1);
    assert!(store.issue_from(Err(rand::Error::new("none")), "/p", 5).is_none());
    assert_eq!(store.issue_from(Ok([0xab; 16]), "/p", 5).as_deref(), Some("abababababababababababababababab"));
    assert!(store.consume_at("kept", "/p", 6));
}

#[test]
fn repository_path_of_a_request_target() {
    assert_eq!(github_path_of("/editor"), "/");
    assert_eq!(github_path_of("/editor/"), "/");
    assert_eq!(github_path_of("/editor/o/r/blob/m/f?x=1"), "/o/r/blob/m/f");
    assert_eq!(github_path_of("/editor/o/r#L5"), "/o/r");
    assert_eq!(github_path_of("/editorial"), "/ial");
    assert_eq!(github_path_of("/other"), "/other");
    assert_eq!(github_path_of(""), "/");
    assert_eq!(get_response("/x", &None).status, 500);
    assert_eq!(get_response("/x", &Some("t".to_string())).status, 200);
}

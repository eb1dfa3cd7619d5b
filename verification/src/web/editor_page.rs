//! The pages of the editor endpoint: the page that posts back, and the page
//! of an error.

use vstd::prelude::*;
use vstd::string::*;
use vstd::utf8::*;
use crate::text::{chars_of, expand, html_escaped, push_html_escaped, push_str, string_of};
use crate::web::common::{HttpResponse, ResponseView};

verus! {

/// The page of the editor endpoint up to the token.
pub const EDITOR_PAGE_HEAD: &'static str =
    "<!DOCTYPE html>\n<html>\n<head>\n<meta charset=\"utf-8\">\n<style>\nbody {\n\tfont-family: monospace;\n\tmargin: 20px;\n\tbackground-color: #f5f5f5;\n}\n.error {\n\tbackground-color: #fff;\n\tborder: 1px solid #ddd;\n\tborder-radius: 4px;\n\tpadding: 20px;\n\tmargin: 20px 0;\n}\n.error h2 {\n\tcolor: #d32f2f;\n\tmargin-top: 0;\n}\n.error p {\n\tcolor: #666;\n\tmargin: 10px 0;\n}\n.repo-link {\n\tmargin-top: 15px;\n}\n.repo-link a {\n\tcolor: #1976d2;\n\ttext-decoration: none;\n\tfont-weight: bold;\n}\n.repo-link a:hover {\n\ttext-decoration: underline;\n}\n</style>\n</head>\n<body>\n<div id=\"result\"></div>\n<script>\nlet data = new Object();\ndata.token = '";

/// The page of the editor endpoint behind the token.
pub const EDITOR_PAGE_TAIL: &'static str =
    "';\nlet pathname = document.location.pathname;\n// Remove /editor prefix if present\nif (pathname.startsWith('/editor')) {\n\tpathname = pathname.substring(7); // Remove '/editor'\n\tif (!pathname.startsWith('/')) {\n\t\tpathname = '/' + pathname;\n\t}\n}\ndata.path = pathname;\n// Extract line number from hash (e.g., #L42)\nlet hash = document.location.hash;\nlet line = null;\nif (hash && hash.startsWith('#L')) {\n\tlet lineNum = parseInt(hash.substring(2));\n\tif (!isNaN(lineNum)) {\n\t\tline = lineNum;\n\t}\n}\ndata.line = line;\nlet request = new XMLHttpRequest();\nrequest.open('POST', '/editor');\nrequest.setRequestHeader('Content-Type', 'application/json');\nrequest.onload = function() {\n\tif (request.status === 200) {\n\t\twindow.close();\n\t} else {\n\t\tdocument.getElementById('result').innerHTML = request.responseText;\n\t}\n};\nrequest.onerror = function() {\n\tdocument.getElementById('result').innerHTML = '<div class=\"error\"><h2>Error</h2><p>Network error occurred.</p></div>';\n};\nrequest.send(JSON.stringify(data));\n</script>\n</body>\n</html>";

/// The page of an error up to the message.
pub const ERROR_PAGE_HEAD: &'static str =
    "<!DOCTYPE html>\n<html>\n<head>\n<meta charset=\"utf-8\">\n<style>\nbody {\n\tfont-family: monospace;\n\tmargin: 20px;\n\tbackground-color: #f5f5f5;\n}\n.error {\n\tbackground-color: #fff;\n\tborder: 1px solid #ddd;\n\tborder-radius: 4px;\n\tpadding: 20px;\n\tmargin: 20px 0;\n}\n.error h2 {\n\tcolor: #d32f2f;\n\tmargin-top: 0;\n}\n.error p {\n\tcolor: #666;\n\tmargin: 10px 0;\n}\n.repo-link {\n\tmargin-top: 15px;\n}\n.repo-link a {\n\tcolor: #1976d2;\n\ttext-decoration: none;\n\tfont-weight: bold;\n}\n.repo-link a:hover {\n\ttext-decoration: underline;\n}\n.details {\n\tmargin-top: 15px;\n}\n.details pre {\n\tbackground-color: #f0f0f0;\n\tborder: 1px solid #ddd;\n\tborder-radius: 4px;\n\tpadding: 10px;\n\twhite-space: pre-wrap;\n\tword-break: break-all;\n}\n</style>\n</head>\n<body>\n<div class=\"error\">\n\t<h2>Error</h2>\n\t<p>";

/// The page of an error behind the message.
pub const ERROR_PAGE_AFTER_MESSAGE: &'static str = "</p>\n\t";

/// The page of an error between its two further sections.
pub const ERROR_PAGE_BETWEEN_SECTIONS: &'static str = "\n\t";

/// The page of an error behind its sections.
pub const ERROR_PAGE_TAIL: &'static str = "\n</div>\n</body>\n</html>";

/// What a character becomes inside a script's text between single quotes:
/// a backslash and a single quote get a backslash before them.
pub open spec fn js_escaped_char(c: char) -> Seq<char> {
    if c == '\\' {
        "\\\\"@
    } else if c == '\'' {
        "\\'"@
    } else {
        seq![c]
    }
}

/// A text as it stands inside a script between single quotes.
pub open spec fn js_escaped(s: Seq<char>) -> Seq<char> {
    expand(s, |c: char| js_escaped_char(c))
}

fn push_js_escaped(out: &mut Vec<char>, s: &[char])
    ensures
        final(out)@ == old(out)@ + js_escaped(s@),
{
    let ghost f = |c: char| js_escaped_char(c);
    let mut i: usize = 0;
    while i < s.len()
        invariant
            i <= s.len(),
            f == (|c: char| js_escaped_char(c)),
            out@ == old(out)@ + expand(s@.take(i as int), f),
        decreases s.len() - i,
    {
        if s[i] == '\\' {
            push_str(out, "\\\\");
        } else if s[i] == '\'' {
            push_str(out, "\\'");
        } else {
            out.push(s[i]);
        }
        assert(s@.take(i + 1).drop_last() == s@.take(i as int));
        assert(out@ == old(out)@ + expand(s@.take(i + 1), f));
        i += 1;
    }
    assert(s@.take(s.len() as int) == s@);
}

/// A text as it stands inside a script between single quotes.
pub fn js_escape_single_quoted(s: &str) -> (r: String)
    ensures
        r@ == js_escaped(s@),
{
    let chars = chars_of(s);
    let mut out: Vec<char> = Vec::new();
    push_js_escaped(&mut out, chars.as_slice());
    string_of(out.as_slice())
}

/// The page that the editor endpoint answers a GET with. Its script posts
/// the path and line of the address it was loaded from, together with the
/// token, back to the endpoint.
pub open spec fn editor_page(token: Seq<char>) -> Seq<char> {
    EDITOR_PAGE_HEAD@ + js_escaped(token) + EDITOR_PAGE_TAIL@
}

/// The page that the editor endpoint answers a GET with. The page is the
/// same for every path: its script takes the path from the address that the
/// page was loaded from.
pub fn generate_editor_html(_path: &str, token: &str) -> (r: String)
    ensures
        r@ == editor_page(token@),
{
    let chars = chars_of(token);
    let mut out = chars_of(EDITOR_PAGE_HEAD);
    push_js_escaped(&mut out, chars.as_slice());
    push_str(&mut out, EDITOR_PAGE_TAIL);
    string_of(out.as_slice())
}

/// The section of an error page that shows the local path, and below it the
/// command line if there is one. Without a local path the section is empty.
pub open spec fn error_details(local_path: Option<Seq<char>>, command: Option<Seq<char>>) -> Seq<
    char,
> {
    match local_path {
        Some(path) => "\n<div class=\"details\">\n\t<p>Local path:</p>\n\t<pre>"@ + html_escaped(path)
            + "</pre>\n\t"@ + (match command {
            Some(c) => "\n\t<p>Command:</p>\n\t<pre>"@ + html_escaped(c) + "</pre>"@,
            None => Seq::empty(),
        }) + "\n</div>"@,
        None => Seq::empty(),
    }
}

/// The address that the link of an error page leads to: the one given, or
/// the host's front page where none is given.
pub open spec fn link_target(href: Option<Seq<char>>) -> Seq<char> {
    match href {
        Some(h) => h,
        None => "https://github.com"@,
    }
}

/// The section of an error page that links to the repository. Without a
/// repository the section is empty.
pub open spec fn error_repo_link(owner_repo: Option<Seq<char>>, href: Option<Seq<char>>) -> Seq<
    char,
> {
    match owner_repo {
        Some(label) =>
            "\n<div class=\"repo-link\">\n\t<p>If you don't have this repository locally, clone it first.</p>\n\t<p>From <a href=\""@
                + html_escaped(link_target(href)) + "\" target=\"_blank\">"@ + html_escaped(label)
                + "</a></p>\n</div>"@,
        None => Seq::empty(),
    }
}

/// The page of an error: the message, the local path and command line as
/// far as they are known, and a link to the repository if one is known.
pub open spec fn error_page(
    message: Seq<char>,
    owner_repo: Option<Seq<char>>,
    href: Option<Seq<char>>,
    local_path: Option<Seq<char>>,
    command: Option<Seq<char>>,
) -> Seq<char> {
    ERROR_PAGE_HEAD@ + html_escaped(message) + ERROR_PAGE_AFTER_MESSAGE@ + error_details(
        local_path,
        command,
    ) + ERROR_PAGE_BETWEEN_SECTIONS@ + error_repo_link(owner_repo, href) + ERROR_PAGE_TAIL@
}

/// A response whose body is a page of HTML.
pub open spec fn html_response(status: u16, page: Seq<char>) -> ResponseView {
    ResponseView {
        status,
        content_type: Some("text/html; charset=utf-8"@),
        headers: Seq::empty(),
        body: encode_utf8(page),
    }
}

/// The text of an optional string slice.
pub open spec fn opt_text(s: Option<&str>) -> Option<Seq<char>> {
    match s {
        Some(t) => Some(t@),
        None => None,
    }
}

fn push_escaped_str(out: &mut Vec<char>, s: &str)
    ensures
        final(out)@ == old(out)@ + html_escaped(s@),
{
    let chars = chars_of(s);
    push_html_escaped(out, chars.as_slice());
}

/// An error as a page of HTML with the given status.
pub fn create_error_html_response_with_status(
    status_code: u16,
    message: &str,
    owner_repo: Option<&str>,
    owner_repo_href: Option<&str>,
    local_full_path: Option<&str>,
    command_preview: Option<&str>,
) -> (r: HttpResponse)
    ensures
        r@ == html_response(
            status_code,
            error_page(
                message@,
                opt_text(owner_repo),
                opt_text(owner_repo_href),
                opt_text(local_full_path),
                opt_text(command_preview),
            ),
        ),
{
    let mut out = chars_of(ERROR_PAGE_HEAD);
    push_escaped_str(&mut out, message);
    push_str(&mut out, ERROR_PAGE_AFTER_MESSAGE);
    let ghost upto_message = out@;
    match local_full_path {
        Some(path) => {
            push_str(&mut out, "\n<div class=\"details\">\n\t<p>Local path:</p>\n\t<pre>");
            push_escaped_str(&mut out, path);
            push_str(&mut out, "</pre>\n\t");
            match command_preview {
                Some(c) => {
                    push_str(&mut out, "\n\t<p>Command:</p>\n\t<pre>");
                    push_escaped_str(&mut out, c);
                    push_str(&mut out, "</pre>");
                },
                None => {},
            }
            push_str(&mut out, "\n</div>");
        },
        None => {},
    }
    assert(out@ =~= upto_message + error_details(
        opt_text(local_full_path),
        opt_text(command_preview),
    ));
    push_str(&mut out, ERROR_PAGE_BETWEEN_SECTIONS);
    let ghost upto_link = out@;
    match owner_repo {
        Some(label) => {
            push_str(
                &mut out,
                "\n<div class=\"repo-link\">\n\t<p>If you don't have this repository locally, clone it first.</p>\n\t<p>From <a href=\"",
            );
            match owner_repo_href {
                Some(h) => push_escaped_str(&mut out, h),
                None => push_escaped_str(&mut out, "https://github.com"),
            }
            push_str(&mut out, "\" target=\"_blank\">");
            push_escaped_str(&mut out, label);
            push_str(&mut out, "</a></p>\n</div>");
        },
        None => {},
    }
    assert(out@ =~= upto_link + error_repo_link(opt_text(owner_repo), opt_text(owner_repo_href)));
    push_str(&mut out, ERROR_PAGE_TAIL);
    assert(out@ =~= error_page(
        message@,
        opt_text(owner_repo),
        opt_text(owner_repo_href),
        opt_text(local_full_path),
        opt_text(command_preview),
    ));
    let html = string_of(out.as_slice());
    HttpResponse::from_string(html.as_str()).with_status_code(status_code).with_content_type(
        "text/html; charset=utf-8",
    )
}

} // verus!

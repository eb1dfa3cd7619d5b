//! Opens a file of a local clone in the configured editor. A page fetched
//! with GET carries a token that its POST must present; the POST is then
//! handled step by step, with a look at the file system between the steps.

use vstd::prelude::*;
use vstd::string::*;
use vstd::utf8::*;
use crate::text::{
    chars_of, decimal, expand, has_char, has_prefix, is_text, join, join_chars, push_chars,
    push_decimal, push_str, replace_all, replace_chars, starts_with, string_of, string_views,
    text_view, to_vec, utf8_text, views,
};
use crate::web::common::{create_error_response, plain_text, HttpResponse, ResponseView};
use crate::web::editor_page::{
    create_error_html_response_with_status, editor_page, error_page, generate_editor_html,
    html_response, opt_text,
};
use crate::web::file::{url_path, url_path_of};
use crate::web::repo_path::{
    get_local_lib_path, join_path, joined_path, local_lib_path, normalize_chars,
    normalize_github_path_for_token, normalized_path, parse_repo_path_best_effort,
    parsed_repo_path,
};
use crate::web::token_store::{
    accepts, consumed, hex_of, is_fresh_token, issued, TokenStore, TokenView,
};

verus! {

/// The first of `& | < > ^ "`, carriage return and line feed, in this order,
/// that occurs in the text.
pub open spec fn first_unsafe_char(s: Seq<char>) -> Option<char> {
    if s.contains('&') {
        Some('&')
    } else if s.contains('|') {
        Some('|')
    } else if s.contains('<') {
        Some('<')
    } else if s.contains('>') {
        Some('>')
    } else if s.contains('^') {
        Some('^')
    } else if s.contains('"') {
        Some('"')
    } else if s.contains('\r') {
        Some('\r')
    } else if s.contains('\n') {
        Some('\n')
    } else {
        None
    }
}

/// A character of the text that a command interpreter could take for part
/// of a command, if it holds one.
pub fn find_unsafe_path_char(s: &str) -> (r: Option<char>)
    ensures
        r == first_unsafe_char(s@),
{
    let chars = chars_of(s);
    let c = chars.as_slice();
    if has_char(c, '&') {
        Some('&')
    } else if has_char(c, '|') {
        Some('|')
    } else if has_char(c, '<') {
        Some('<')
    } else if has_char(c, '>') {
        Some('>')
    } else if has_char(c, '^') {
        Some('^')
    } else if has_char(c, '"') {
        Some('"')
    } else if has_char(c, '\r') {
        Some('\r')
    } else if has_char(c, '\n') {
        Some('\n')
    } else {
        None
    }
}

/// A text in which no such character is found holds none of `& | < > ^ "`,
/// no carriage return and no line feed.
pub proof fn lemma_no_unsafe_char(s: Seq<char>)
    requires
        first_unsafe_char(s) is None,
    ensures
        !s.contains('&'),
        !s.contains('|'),
        !s.contains('<'),
        !s.contains('>'),
        !s.contains('^'),
        !s.contains('"'),
        !s.contains('\r'),
        !s.contains('\n'),
{
}

/// A character that is found is one of those looked for, and occurs in the text.
pub proof fn lemma_unsafe_char_occurs(s: Seq<char>)
    requires
        first_unsafe_char(s) is Some,
    ensures
        s.contains(first_unsafe_char(s)->0),
{
}

/// A double quote with a backslash before it; any other character as it is.
pub open spec fn quote_escaped_char(c: char) -> Seq<char> {
    if c == '"' {
        "\\\""@
    } else {
        seq![c]
    }
}

/// An argument as a command line is shown: between double quotes, with a
/// backslash before each double quote inside, where it holds a space, a tab
/// or a double quote; as it is where it holds none.
pub open spec fn quoted_arg(arg: Seq<char>) -> Seq<char> {
    if arg.contains(' ') || arg.contains('\t') || arg.contains('"') {
        "\""@ + expand(arg, |c: char| quote_escaped_char(c)) + "\""@
    } else {
        arg
    }
}

fn quote_chars(arg: &[char]) -> (r: Vec<char>)
    ensures
        r@ == quoted_arg(arg@),
{
    if !(has_char(arg, ' ') || has_char(arg, '\t') || has_char(arg, '"')) {
        return to_vec(arg);
    }
    let ghost f = |c: char| quote_escaped_char(c);
    let mut r = chars_of("\"");
    let mut i: usize = 0;
    while i < arg.len()
        invariant
            i <= arg.len(),
            f == (|c: char| quote_escaped_char(c)),
            r@ == "\""@ + expand(arg@.take(i as int), f),
        decreases arg.len() - i,
    {
        if arg[i] == '"' {
            push_str(&mut r, "\\\"");
        } else {
            r.push(arg[i]);
        }
        assert(arg@.take(i + 1).drop_last() == arg@.take(i as int));
        assert(r@ == "\""@ + expand(arg@.take(i + 1), f));
        i += 1;
    }
    assert(arg@.take(arg.len() as int) == arg@);
    push_str(&mut r, "\"");
    r
}

/// An argument as a command line is shown.
pub fn quote_arg_for_display(arg: &str) -> (r: String)
    ensures
        r@ == quoted_arg(arg@),
{
    let chars = chars_of(arg);
    let r = quote_chars(chars.as_slice());
    string_of(r.as_slice())
}

/// The arguments as a command line is shown, each by `quoted_arg`.
pub open spec fn quoted_args(args: Seq<Seq<char>>) -> Seq<Seq<char>> {
    Seq::new(args.len(), |i: int| quoted_arg(args[i]))
}

/// A command line as it is shown: the command, then each argument quoted
/// where it needs to be, with a space between each two.
pub open spec fn command_preview(command: Seq<char>, args: Seq<Seq<char>>) -> Seq<char> {
    join(seq![command] + quoted_args(args), " "@)
}

/// A command line as it is shown.
pub fn format_command_preview(command: &str, args: &Vec<String>) -> (r: String)
    ensures
        r@ == command_preview(command@, string_views(args@)),
{
    let mut parts: Vec<Vec<char>> = Vec::new();
    parts.push(chars_of(command));
    let mut i: usize = 0;
    while i < args.len()
        invariant
            i <= args.len(),
            parts.len() == i + 1,
            parts@[0]@ == command@,
            forall|k: int| 1 <= k <= i ==> (#[trigger] parts@[k])@ == quoted_arg(args@[k - 1]@),
        decreases args.len() - i,
    {
        let arg = chars_of(args[i].as_str());
        parts.push(quote_chars(arg.as_slice()));
        i += 1;
    }
    assert(views(parts@) =~= seq![command@] + quoted_args(string_views(args@)));
    let sep = chars_of(" ");
    let r = join_chars(&parts, sep.as_slice());
    string_of(r.as_slice())
}

/// An argument with the file and the line filled in: every `{file}`
/// replaced by the path, and then every `{line}` by the line in decimal.
pub open spec fn rendered_arg(template: Seq<char>, file: Seq<char>, line: u32) -> Seq<char> {
    replace_all(replace_all(template, "{file}"@, file), "{line}"@, decimal(line as nat))
}

/// The arguments with the file and the line filled in.
pub open spec fn rendered_args(templates: Seq<Seq<char>>, file: Seq<char>, line: u32) -> Seq<
    Seq<char>,
> {
    Seq::new(templates.len(), |i: int| rendered_arg(templates[i], file, line))
}

/// The arguments of the editor command for a file and a line.
pub fn render_editor_args(args: &Vec<String>, file_path: &str, line: u32) -> (r: Vec<String>)
    ensures
        string_views(r@) == rendered_args(string_views(args@), file_path@, line),
{
    let file = chars_of(file_path);
    let mut number: Vec<char> = Vec::new();
    push_decimal(&mut number, line as u64);
    assert(number@ =~= decimal(line as nat));
    let file_mark = chars_of("{file}");
    let line_mark = chars_of("{line}");
    let mut r: Vec<String> = Vec::new();
    let mut i: usize = 0;
    while i < args.len()
        invariant
            i <= args.len(),
            r.len() == i,
            file@ == file_path@,
            number@ == decimal(line as nat),
            file_mark@ == "{file}"@,
            line_mark@ == "{line}"@,
            forall|j: int| 0 <= j < i ==> (#[trigger] r@[j])@ == rendered_arg(args@[j]@, file_path@, line),
        decreases args.len() - i,
    {
        let template = chars_of(args[i].as_str());
        let with_file = replace_chars(template.as_slice(), file_mark.as_slice(), file.as_slice());
        let with_line = replace_chars(with_file.as_slice(), line_mark.as_slice(), number.as_slice());
        r.push(string_of(with_line.as_slice()));
        i += 1;
    }
    assert(string_views(r@) =~= rendered_args(string_views(args@), file_path@, line));
    r
}

/// The repository path that a request target of the editor endpoint names:
/// what stands behind `/editor`, with a slash at its start.
pub open spec fn editor_github_path(url_path: Seq<char>) -> Seq<char> {
    normalized_path(
        if starts_with(url_path, "/editor"@) {
            url_path.skip("/editor"@.len() as int)
        } else {
            url_path
        },
    )
}

/// The answer to a GET of the editor endpoint, with the store that it
/// leaves behind: the page with a new token, which the store then binds to
/// the repository path of the request target; or, where no token could be
/// made, 500 and the store as it was.
pub open spec fn is_get_outcome(
    response: ResponseView,
    after: Seq<TokenView>,
    before: Seq<TokenView>,
    url: Seq<char>,
    token: Option<Seq<char>>,
    now: u64,
) -> bool {
    match token {
        Some(t) => after == issued(before, t, editor_github_path(url_path_of(url)), now)
            && response == html_response(200, editor_page(t)),
        None => after == before && response == plain_text(500, "Internal Server Error"@),
    }
}

/// The repository path of a request target of the editor endpoint.
pub fn github_path_of(url: &str) -> (r: String)
    ensures
        r@ == editor_github_path(url_path_of(url@)),
{
    let chars = chars_of(url);
    let path = url_path(chars.as_slice());
    let prefix = chars_of("/editor");
    let rest = if has_prefix(path.as_slice(), prefix.as_slice()) {
        normalize_chars(&path.as_slice()[prefix.len()..path.len()])
    } else {
        normalize_chars(path.as_slice())
    };
    string_of(rest.as_slice())
}

/// The page that carries a token, or 500 where there is none.
pub fn get_response(github_path: &str, token: &Option<String>) -> (r: HttpResponse)
    ensures
        r@ == (match token {
            Some(t) => html_response(200, editor_page(t@)),
            None => plain_text(500, "Internal Server Error"@),
        }),
{
    match token {
        Some(t) => {
            let html = generate_editor_html(github_path, t.as_str());
            HttpResponse::from_string(html.as_str()).with_content_type("text/html; charset=utf-8")
        },
        None => create_error_response(500, "Internal Server Error"),
    }
}

/// Answers a GET of the editor endpoint at the time `now`, given what the
/// random number generator gave: hands out the token that the random bytes
/// make for the repository path of the request target, and answers with the
/// page that carries it.
pub fn handle_get_request_with(
    store: &mut TokenStore,
    url: &str,
    random: Result<[u8; 16], rand::Error>,
    now: u64,
) -> (r: HttpResponse)
    requires
        old(store).wf(),
    ensures
        final(store).wf(),
        is_get_outcome(
            r@,
            final(store)@,
            old(store)@,
            url@,
            match random {
                Ok(bytes) => Some(hex_of(bytes@)),
                Err(_) => None,
            },
            now,
        ),
{
    let github_path = github_path_of(url);
    let token = store.issue_from(random, github_path.as_str(), now);
    get_response(github_path.as_str(), &token)
}

/// Answers a GET of the editor endpoint: hands out a new token for the
/// repository path of the request target, and answers with the page that
/// carries it.
pub fn handle_get_request(store: &mut TokenStore, url: &str) -> (r: HttpResponse)
    requires
        old(store).wf(),
    ensures
        final(store).wf(),
        exists|token: Option<Seq<char>>, now: u64|
            #[trigger] is_get_outcome(r@, final(store)@, old(store)@, url@, token, now) && (
            token matches Some(t) ==> is_fresh_token(t)),
{
    let github_path = github_path_of(url);
    let token = store.issue_one_time_token(github_path.as_str());
    let r = get_response(github_path.as_str(), &token);
    proof {
        match token {
            Some(t) => {
                let now = choose|now: u64|
                    final(store)@ == issued(old(store)@, t@, github_path@, now);
                assert(is_get_outcome(r@, final(store)@, old(store)@, url@, Some(t@), now));
            },
            None => {
                assert(is_get_outcome(r@, final(store)@, old(store)@, url@, None, 0));
            },
        }
    }
    r
}

/// What a POST to the editor endpoint asks for.
pub struct EditorRequest {
    pub path: String,
    pub line: Option<u32>,
    pub repos_dir: Option<String>,
    pub token: Option<String>,
}

/// The name of the repository of a path, as the link of an error page shows
/// it: owner, slash, repository.
pub open spec fn repo_label(path: Seq<char>) -> Option<Seq<char>> {
    match parsed_repo_path(path) {
        Some(p) => Some(p.owner + "/"@ + p.repo),
        None => None,
    }
}

/// The address of the repository of a path on its host; on `github.com`
/// where the path names no host.
pub open spec fn repo_href(path: Seq<char>) -> Option<Seq<char>> {
    match parsed_repo_path(path) {
        Some(p) => Some(
            "https://"@ + (match p.host {
                Some(h) => h,
                None => "github.com"@,
            }) + "/"@ + p.owner + "/"@ + p.repo,
        ),
        None => None,
    }
}

/// The link to the repository that error pages show: its name and its address.
pub struct RepoLink {
    pub owner_repo: Option<String>,
    pub href: Option<String>,
}

fn repo_link(path: &str) -> (r: RepoLink)
    ensures
        text_view(r.owner_repo) == repo_label(path@),
        text_view(r.href) == repo_href(path@),
{
    match parse_repo_path_best_effort(path) {
        Some(p) => {
            let mut label = p.owner.clone();
            label.append("/");
            label.append(p.repo.as_str());
            let mut href = "https://".to_string();
            match &p.host {
                Some(h) => href.append(h.as_str()),
                None => href.append("github.com"),
            }
            href.append("/");
            href.append(p.owner.as_str());
            href.append("/");
            href.append(p.repo.as_str());
            RepoLink { owner_repo: Some(label), href: Some(href) }
        },
        None => RepoLink { owner_repo: None, href: None },
    }
}

fn as_text(s: &Option<String>) -> (r: Option<&str>)
    ensures
        opt_text(r) == text_view(*s),
{
    match s {
        Some(t) => Some(t.as_str()),
        None => None,
    }
}

/// The response that turns a POST down for its body, if it is turned down
/// for it: 400 for a body that could not be read, and for one that is not
/// UTF-8.
pub open spec fn body_rejection(body: Option<Seq<u8>>) -> Option<ResponseView> {
    match body {
        Some(b) => if valid_utf8(b) {
            None
        } else {
            Some(html_response(400, error_page("Bad Request: Invalid UTF-8"@, None, None, None, None)))
        },
        None => Some(
            html_response(
                400,
                error_page("Bad Request: Failed to read request body"@, None, None, None, None),
            ),
        ),
    }
}

/// The bytes of an optional body.
pub open spec fn body_view(body: Option<Vec<u8>>) -> Option<Seq<u8>> {
    match body {
        Some(b) => Some(b@),
        None => None,
    }
}

/// The body of a POST as text, or the response that turns it down.
pub fn post_body_text(body: &Option<Vec<u8>>) -> (r: Result<String, HttpResponse>)
    ensures
        match body_rejection(body_view(*body)) {
            Some(response) => r matches Err(e) && e@ == response,
            None => r matches Ok(text) && text@ == decode_utf8(body->0@),
        },
{
    match body {
        Some(b) => match utf8_text(b.as_slice()) {
            Some(text) => Ok(text),
            None => Err(
                create_error_html_response_with_status(
                    400,
                    "Bad Request: Invalid UTF-8",
                    None,
                    None,
                    None,
                    None,
                ),
            ),
        },
        None => Err(
            create_error_html_response_with_status(
                400,
                "Bad Request: Failed to read request body",
                None,
                None,
                None,
                None,
            ),
        ),
    }
}

/// The directory of clones that a request is served from: the one it names,
/// else the configured one.
pub open spec fn chosen_repos_dir(request: Option<Seq<char>>, configured: Option<Seq<char>>) -> Option<
    Seq<char>,
> {
    match request {
        Some(d) => Some(d),
        None => configured,
    }
}

/// A directory with a `~` at its start replaced by the home directory. A
/// directory that begins with `~` cannot be named without a home directory.
pub open spec fn expanded_home(dir: Seq<char>, home: Option<Seq<char>>) -> Result<
    Seq<char>,
    Seq<char>,
> {
    if starts_with(dir, "~"@) {
        match home {
            Some(h) => Ok(h + dir.skip("~"@.len() as int)),
            None => Err("HOME or USERPROFILE environment variable not set"@),
        }
    } else {
        Ok(dir)
    }
}

/// A directory with a `~` at its start replaced by the home directory.
pub fn expand_home(dir: &str, home: Option<&str>) -> (r: Result<String, String>)
    ensures
        match r {
            Ok(d) => expanded_home(dir@, opt_text(home)) == Ok::<Seq<char>, Seq<char>>(d@),
            Err(e) => expanded_home(dir@, opt_text(home)) == Err::<Seq<char>, Seq<char>>(e@),
        },
{
    let chars = chars_of(dir);
    let tilde = chars_of("~");
    if has_prefix(chars.as_slice(), tilde.as_slice()) {
        match home {
            Some(h) => {
                let mut out = chars_of(h);
                push_chars(&mut out, &chars.as_slice()[tilde.len()..chars.len()]);
                Ok(string_of(out.as_slice()))
            },
            None => Err("HOME or USERPROFILE environment variable not set".to_string()),
        }
    } else {
        Ok(dir.to_string())
    }
}

/// What is known of a request once its token was accepted: where the clones
/// are to be looked for, and what to open.
pub struct PendingOpen {
    /// The directory of clones, with the home directory filled in.
    pub repos_dir: String,
    /// The repository path, with a slash at its start.
    pub github_path: String,
    pub line: u32,
    pub link: RepoLink,
}

/// How the handling of a POST goes on after its token was looked at.
pub enum PostStart {
    /// The request is turned down with this response.
    Respond(HttpResponse),
    /// Find out whether the directory of clones exists and is a directory,
    /// then go on with `resolve_post`.
    CheckReposDir(PendingOpen),
}

/// The texts of a request.
pub struct EditorRequestView {
    pub path: Seq<char>,
    pub line: Option<u32>,
    pub repos_dir: Option<Seq<char>>,
    pub token: Option<Seq<char>>,
}

impl View for EditorRequest {
    type V = EditorRequestView;

    open spec fn view(&self) -> EditorRequestView {
        EditorRequestView {
            path: self.path@,
            line: self.line,
            repos_dir: text_view(self.repos_dir),
            token: text_view(self.token),
        }
    }
}

/// The token that a request presents; none where it names none or an empty one.
pub open spec fn presented_token(request: EditorRequestView) -> Option<Seq<char>> {
    match request.token {
        Some(t) => if t.len() > 0 {
            Some(t)
        } else {
            None
        },
        None => None,
    }
}

/// The page of an error about a request for `path`, with the status given.
pub open spec fn request_error(status: u16, message: Seq<char>, path: Seq<char>) -> ResponseView {
    html_response(status, error_page(message, repo_label(path), repo_href(path), None, None))
}

/// The response that turns a POST down before the file system is looked
/// at, if it is turned down there: 400 for a body that is no request, 403
/// for a missing token and for one that is not accepted, 404 where no
/// directory of clones is known.
pub open spec fn post_rejection(
    request: Option<EditorRequestView>,
    token_accepted: bool,
    configured_dir: Option<Seq<char>>,
    home: Option<Seq<char>>,
) -> Option<ResponseView> {
    match request {
        None => Some(
            html_response(400, error_page("Bad Request: Invalid JSON"@, None, None, None, None)),
        ),
        Some(q) => if presented_token(q) is None {
            Some(request_error(403, "Forbidden: Missing token. Reload and try again."@, q.path))
        } else if !token_accepted {
            Some(
                request_error(
                    403,
                    "Forbidden: Invalid or expired token. Reload and try again."@,
                    q.path,
                ),
            )
        } else {
            match chosen_repos_dir(q.repos_dir, configured_dir) {
                None => Some(
                    request_error(404, "Not Found: "@ + "web.editor.reposDir not configured"@, q.path),
                ),
                Some(d) => match expanded_home(d, home) {
                    Err(e) => Some(request_error(404, "Not Found: "@ + e, q.path)),
                    Ok(_) => None,
                },
            }
        },
    }
}

/// The store after a POST was looked at: the token that it presented is
/// gone, accepted or not; a request without a token leaves the store alone.
pub open spec fn store_after_post(
    entries: Seq<TokenView>,
    request: Option<EditorRequestView>,
    now: u64,
) -> Seq<TokenView> {
    match request {
        Some(q) => match presented_token(q) {
            Some(t) => consumed(entries, t, now),
            None => entries,
        },
        None => entries,
    }
}

/// Whether the token that a request presents is accepted at `now`.
pub open spec fn post_token_accepted(
    entries: Seq<TokenView>,
    request: Option<EditorRequestView>,
    now: u64,
) -> bool {
    match request {
        Some(q) => match presented_token(q) {
            Some(t) => accepts(entries, t, normalized_path(q.path), now),
            None => false,
        },
        None => false,
    }
}

/// The view of an optional request.
pub open spec fn request_view(request: Option<&EditorRequest>) -> Option<EditorRequestView> {
    match request {
        Some(q) => Some(q@),
        None => None,
    }
}

fn not_found_page(detail: &str, link: &RepoLink) -> (r: HttpResponse)
    ensures
        r@ == html_response(
            404,
            error_page(
                "Not Found: "@ + detail@,
                text_view(link.owner_repo),
                text_view(link.href),
                None,
                None,
            ),
        ),
{
    let mut message = "Not Found: ".to_string();
    message.append(detail);
    create_error_html_response_with_status(
        404,
        message.as_str(),
        as_text(&link.owner_repo),
        as_text(&link.href),
        None,
        None,
    )
}

fn missing_token_page(link: &RepoLink) -> (r: HttpResponse)
    ensures
        r@ == html_response(
            403,
            error_page(
                "Forbidden: Missing token. Reload and try again."@,
                text_view(link.owner_repo),
                text_view(link.href),
                None,
                None,
            ),
        ),
{
    create_error_html_response_with_status(
        403,
        "Forbidden: Missing token. Reload and try again.",
        as_text(&link.owner_repo),
        as_text(&link.href),
        None,
        None,
    )
}

/// Whether `r` is how the handling of `request` goes on, given whether its
/// token was accepted: the response that turns it down, if it is turned
/// down; else the directory of clones to look at, with the home directory
/// filled in, the repository path with a slash at its start, the line asked
/// for or the first, and the link to the repository.
pub open spec fn is_post_start(
    r: PostStart,
    request: Option<EditorRequestView>,
    token_accepted: bool,
    configured_dir: Option<Seq<char>>,
    home: Option<Seq<char>>,
) -> bool {
    match post_rejection(request, token_accepted, configured_dir, home) {
        Some(response) => r matches PostStart::Respond(e) && e@ == response,
        None => r matches PostStart::CheckReposDir(p) && request matches Some(q) && expanded_home(
            chosen_repos_dir(q.repos_dir, configured_dir)->0,
            home,
        ) == Ok::<Seq<char>, Seq<char>>(p.repos_dir@) && p.github_path@ == normalized_path(q.path)
            && p.line == (match q.line {
            Some(l) => l,
            None => 1u32,
        }) && text_view(p.link.owner_repo) == repo_label(q.path) && text_view(p.link.href)
            == repo_href(q.path),
    }
}

/// Looks at a POST at the time `now`: at the request that its body was read
/// into (`None` for a body that is no request), at its token, and at the
/// directory of clones it is to be served from.
pub fn begin_post_at(
    store: &mut TokenStore,
    request: Option<&EditorRequest>,
    configured_dir: &Option<String>,
    home: Option<&str>,
    now: u64,
) -> (r: PostStart)
    requires
        old(store).wf(),
    ensures
        final(store).wf(),
        final(store)@ == store_after_post(old(store)@, request_view(request), now),
        is_post_start(
            r,
            request_view(request),
            post_token_accepted(old(store)@, request_view(request), now),
            text_view(*configured_dir),
            opt_text(home),
        ),
{
    let q = match request {
        Some(q) => q,
        None => {
            return PostStart::Respond(
                create_error_html_response_with_status(
                    400,
                    "Bad Request: Invalid JSON",
                    None,
                    None,
                    None,
                    None,
                ),
            );
        },
    };
    let link = repo_link(q.path.as_str());
    let token: &str = match &q.token {
        Some(t) => t.as_str(),
        None => {
            return PostStart::Respond(missing_token_page(&link));
        },
    };
    if token.unicode_len() == 0 {
        return PostStart::Respond(missing_token_page(&link));
    }
    assert(presented_token(q@) == Some(token@));
    let github_path = normalize_github_path_for_token(q.path.as_str());
    if !store.consume_at(token, github_path.as_str(), now) {
        return PostStart::Respond(
            create_error_html_response_with_status(
                403,
                "Forbidden: Invalid or expired token. Reload and try again.",
                as_text(&link.owner_repo),
                as_text(&link.href),
                None,
                None,
            ),
        );
    }
    let dir: &String = match &q.repos_dir {
        Some(d) => d,
        None => match configured_dir {
            Some(d) => d,
            None => {
                return PostStart::Respond(
                    not_found_page("web.editor.reposDir not configured", &link),
                );
            },
        },
    };
    assert(chosen_repos_dir(q@.repos_dir, text_view(*configured_dir)) == Some(dir@));
    let repos_dir = match expand_home(dir.as_str(), home) {
        Ok(d) => d,
        Err(e) => {
            return PostStart::Respond(not_found_page(e.as_str(), &link));
        },
    };
    let line: u32 = match q.line {
        Some(l) => l,
        None => 1,
    };
    PostStart::CheckReposDir(PendingOpen { repos_dir, github_path, line, link })
}

/// Looks at a POST now, as `begin_post_at` does at the time given.
pub fn begin_post(
    store: &mut TokenStore,
    request: Option<&EditorRequest>,
    configured_dir: &Option<String>,
    home: Option<&str>,
) -> (r: PostStart)
    requires
        old(store).wf(),
    ensures
        final(store).wf(),
        exists|now: u64|
            final(store)@ == #[trigger] store_after_post(old(store)@, request_view(request), now)
                && is_post_start(
                r,
                request_view(request),
                post_token_accepted(old(store)@, request_view(request), now),
                text_view(*configured_dir),
                opt_text(home),
            ),
{
    let now = store.now();
    begin_post_at(store, request, configured_dir, home, now)
}

/// What is to be opened, and how.
pub struct OpenPlan {
    /// The file in the local clone.
    pub local_path: String,
    pub command: String,
    /// The arguments of the command, with file and line filled in.
    pub args: Vec<String>,
    /// The command line as error pages show it.
    pub preview: String,
    pub link: RepoLink,
}

/// How the handling of a POST goes on after the directory of clones was
/// looked at.
pub enum PostResolved {
    /// The request is turned down with this response.
    Respond(HttpResponse),
    /// Find out whether the file exists, then go on with `launch_post`.
    CheckFile(OpenPlan),
}

/// Why a request cannot be served from the directory of clones, if it
/// cannot: the directory is missing or is none, or the repository path names
/// no file below it.
pub open spec fn resolve_failure(
    repos_dir: Seq<char>,
    github_path: Seq<char>,
    dir_exists: bool,
    dir_is_dir: bool,
    include_host: bool,
) -> Option<Seq<char>> {
    if !dir_exists {
        Some("web.editor.reposDir does not exist: "@ + repos_dir)
    } else if !dir_is_dir {
        Some("web.editor.reposDir is not a directory: "@ + repos_dir)
    } else {
        match local_lib_path(github_path, include_host) {
            Err(e) => Some(e),
            Ok(_) => None,
        }
    }
}

/// Decides where the file of a request lies, given what the file system
/// says of the directory of clones, and with what command line it is opened.
/// A request that cannot be served from the directory gets 404.
pub fn resolve_post(
    pending: PendingOpen,
    dir_exists: bool,
    dir_is_dir: bool,
    include_host: bool,
    command: &str,
    args: &Vec<String>,
) -> (r: PostResolved)
    ensures
        match resolve_failure(
            pending.repos_dir@,
            pending.github_path@,
            dir_exists,
            dir_is_dir,
            include_host,
        ) {
            Some(why) => r matches PostResolved::Respond(e) && e@ == html_response(
                404,
                error_page(
                    "Not Found: "@ + why,
                    text_view(pending.link.owner_repo),
                    text_view(pending.link.href),
                    None,
                    None,
                ),
            ),
            None => r matches PostResolved::CheckFile(plan) && plan.local_path@ == joined_path(
                pending.repos_dir@,
                local_lib_path(pending.github_path@, include_host)->Ok_0,
            ) && plan.command@ == command@ && string_views(plan.args@) == rendered_args(
                string_views(args@),
                plan.local_path@,
                pending.line,
            ) && plan.preview@ == command_preview(command@, string_views(plan.args@))
                && plan.link == pending.link,
        },
{
    if !dir_exists {
        let mut why = "web.editor.reposDir does not exist: ".to_string();
        why.append(pending.repos_dir.as_str());
        return PostResolved::Respond(not_found_page(why.as_str(), &pending.link));
    }
    if !dir_is_dir {
        let mut why = "web.editor.reposDir is not a directory: ".to_string();
        why.append(pending.repos_dir.as_str());
        return PostResolved::Respond(not_found_page(why.as_str(), &pending.link));
    }
    let pieces = match get_local_lib_path(pending.github_path.as_str(), include_host) {
        Ok(p) => p,
        Err(e) => {
            return PostResolved::Respond(not_found_page(e.as_str(), &pending.link));
        },
    };
    let local_path = join_path(pending.repos_dir.as_str(), &pieces);
    let rendered = render_editor_args(args, local_path.as_str(), pending.line);
    let preview = format_command_preview(command, &rendered);
    PostResolved::CheckFile(
        OpenPlan {
            local_path,
            command: command.to_string(),
            args: rendered,
            preview,
            link: pending.link,
        },
    )
}

/// The page of an error about a file that was looked for, with the local
/// path and the command line.
pub open spec fn plan_error(status: u16, message: Seq<char>, plan: OpenPlan) -> ResponseView {
    html_response(
        status,
        error_page(
            message,
            text_view(plan.link.owner_repo),
            text_view(plan.link.href),
            Some(plan.local_path@),
            Some(plan.preview@),
        ),
    )
}

/// The response that turns a request down once its file was looked for, if
/// it is turned down there: 404 for a file that does not exist, 400 for a
/// path with a character that a command interpreter could take for part of
/// a command.
pub open spec fn launch_rejection(plan: OpenPlan, file_exists: bool) -> Option<ResponseView> {
    if !file_exists {
        Some(plan_error(404, "File not found"@, plan))
    } else {
        match first_unsafe_char(plan.local_path@) {
            Some(c) => Some(
                plan_error(
                    400,
                    "Unsafe character '"@ + seq![c] + "' in local file path"@,
                    plan,
                ),
            ),
            None => None,
        }
    }
}

/// The editor is started only for a file that exists and whose path holds
/// no character that a command interpreter could take for part of a command.
pub proof fn lemma_launch_is_safe(plan: OpenPlan, file_exists: bool)
    requires
        launch_rejection(plan, file_exists) is None,
    ensures
        file_exists,
        first_unsafe_char(plan.local_path@) is None,
{
}

fn plan_error_page(status: u16, message: &str, plan: &OpenPlan) -> (r: HttpResponse)
    ensures
        r@ == plan_error(status, message@, *plan),
{
    create_error_html_response_with_status(
        status,
        message,
        as_text(&plan.link.owner_repo),
        as_text(&plan.link.href),
        Some(plan.local_path.as_str()),
        Some(plan.preview.as_str()),
    )
}

/// Decides whether the editor is started, given whether the file exists.
/// `None` says that it is: run the command of the plan with its arguments,
/// then go on with `finish_post`.
pub fn launch_post(plan: &OpenPlan, file_exists: bool) -> (r: Option<HttpResponse>)
    ensures
        match launch_rejection(*plan, file_exists) {
            Some(response) => r matches Some(e) && e@ == response,
            None => r is None,
        },
{
    if !file_exists {
        return Some(plan_error_page(404, "File not found", plan));
    }
    match find_unsafe_path_char(plan.local_path.as_str()) {
        Some(c) => {
            let mut message = chars_of("Unsafe character '");
            message.push(c);
            push_str(&mut message, "' in local file path");
            let message = string_of(message.as_slice());
            assert(message@ =~= "Unsafe character '"@ + seq![c] + "' in local file path"@);
            Some(plan_error_page(400, message.as_str(), plan))
        },
        None => None,
    }
}

/// A program and the arguments it is started with.
pub struct CommandLine {
    pub program: String,
    pub args: Vec<String>,
}

/// The arguments that a command is started with: on Windows, where the
/// command interpreter runs it, `/C`, the command and its arguments; its own
/// arguments anywhere else.
pub open spec fn spawn_args(command: Seq<char>, args: Seq<Seq<char>>, windows: bool) -> Seq<
    Seq<char>,
> {
    if windows {
        seq!["/C"@, command] + args
    } else {
        args
    }
}

/// How the command of a plan is started: through `cmd` on Windows, by
/// itself anywhere else.
pub fn command_line(plan: &OpenPlan, windows: bool) -> (r: CommandLine)
    ensures
        r.program@ == if windows {
            "cmd"@
        } else {
            plan.command@
        },
        string_views(r.args@) == spawn_args(plan.command@, string_views(plan.args@), windows),
{
    let mut args: Vec<String> = Vec::new();
    if windows {
        args.push("/C".to_string());
        args.push(plan.command.clone());
    }
    let ghost head = string_views(args@);
    assert(head =~= if windows {
        seq!["/C"@, plan.command@]
    } else {
        Seq::empty()
    });
    let mut i: usize = 0;
    while i < plan.args.len()
        invariant
            i <= plan.args.len(),
            string_views(args@) == head + string_views(plan.args@).take(i as int),
        decreases plan.args.len() - i,
    {
        let ghost before = string_views(args@);
        args.push(plan.args[i].clone());
        assert(string_views(args@) =~= before.push(plan.args@[i as int]@));
        assert(string_views(plan.args@).take(i + 1) =~= string_views(plan.args@).take(
            i as int,
        ).push(plan.args@[i as int]@));
        i += 1;
    }
    assert(string_views(plan.args@).take(plan.args.len() as int) == string_views(plan.args@));
    assert(string_views(args@) =~= spawn_args(plan.command@, string_views(plan.args@), windows));
    CommandLine {
        program: if windows {
            "cmd".to_string()
        } else {
            plan.command.clone()
        },
        args,
    }
}

/// The response once the editor was started: 200 `OK`; or, where it could
/// not be started, 500 with what went wrong.
pub open spec fn post_outcome(plan: OpenPlan, failure: Option<Seq<char>>) -> ResponseView {
    match failure {
        Some(why) => plan_error(500, why, plan),
        None => plain_text(200, "OK"@),
    }
}

/// Answers a POST once the command was run; `failure` says what went wrong
/// where the editor could not be started.
pub fn finish_post(plan: &OpenPlan, failure: Option<&str>) -> (r: HttpResponse)
    ensures
        r@ == post_outcome(*plan, opt_text(failure)),
{
    match failure {
        Some(why) => plan_error_page(500, why, plan),
        None => HttpResponse::from_string("OK"),
    }
}

/// What the editor endpoint does with a request.
pub enum EditorAction {
    /// Answer with this response.
    Respond(HttpResponse),
    /// Read this text as a request in JSON, then go on with `begin_post`.
    ReadRequest(String),
}

/// Handles a request to the editor endpoint by its method: a GET gets the
/// page with a new token, a POST has its body looked at, and any other
/// method gets 405.
pub fn handle_editor_request(
    store: &mut TokenStore,
    method: &str,
    url: &str,
    body: &Option<Vec<u8>>,
) -> (r: EditorAction)
    requires
        old(store).wf(),
    ensures
        final(store).wf(),
        method@ == "GET"@ ==> r is Respond && exists|token: Option<Seq<char>>, now: u64|
            #[trigger] is_get_outcome(
                r->Respond_0@,
                final(store)@,
                old(store)@,
                url@,
                token,
                now,
            ) && (token matches Some(t) ==> is_fresh_token(t)),
        method@ != "GET"@ ==> final(store)@ == old(store)@,
        method@ == "POST"@ ==> match body_rejection(body_view(*body)) {
            Some(response) => r matches EditorAction::Respond(e) && e@ == response,
            None => r matches EditorAction::ReadRequest(text) && text@ == decode_utf8(body->0@),
        },
        method@ != "GET"@ && method@ != "POST"@ ==> (r matches EditorAction::Respond(e) && e@
            == plain_text(405, "Method Not Allowed"@)),
{
    proof {
        reveal_strlit("GET");
        reveal_strlit("POST");
        assert("GET"@.len() == 3 && "POST"@.len() == 4);
    }
    let m = chars_of(method);
    if is_text(m.as_slice(), "GET") {
        EditorAction::Respond(handle_get_request(store, url))
    } else if is_text(m.as_slice(), "POST") {
        match post_body_text(body) {
            Ok(text) => EditorAction::ReadRequest(text),
            Err(e) => EditorAction::Respond(e),
        }
    } else {
        EditorAction::Respond(create_error_response(405, "Method Not Allowed"))
    }
}

} // verus!

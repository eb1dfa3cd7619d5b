//! The settings of the web server.

use vstd::prelude::*;
use vstd::string::*;
use crate::text::{
    chars_of, decimal, has_prefix_text, is_text, push_decimal, starts_with, string_of,
};
use crate::web::common::{plain_text, HttpRequest, HttpResponse};
use crate::web::dump_handler::{describes, handle_dump_request, DumpResponse};
use crate::web::file::{
    parse_and_validate_path, path_is_acceptable, relative_path, url_path, url_path_of,
    StaticRequest,
};
use crate::web::slow_handler::{handle_slow_request, is_slow_path, is_slow_reply, SlowReply};
use crate::web::status_handler::{handle_status_request, status_response};

verus! {

/// How files are opened in the local editor.
#[derive(Debug)]
pub struct EditorConfig {
    /// The directory that holds the local clones.
    pub repos_dir: Option<String>,
    /// Whether a clone lives below a directory named after its host.
    pub include_host: bool,
    pub command: String,
    /// The arguments of the command; `{file}` and `{line}` are filled in.
    pub args: Vec<String>,
}

/// The web server's part of the settings file.
#[derive(Debug)]
pub struct WebConfig {
    pub root: String,
    pub port: u16,
    pub open_browser_at_start: bool,
    pub dump: bool,
    pub slow: bool,
    pub status: bool,
    pub editor: Option<EditorConfig>,
}

/// The settings that one server runs with; they do not change while it runs.
pub struct WebServerConfig {
    pub root: String,
    pub port: u16,
    pub open_browser_at_start: bool,
    pub dump: bool,
    pub slow: bool,
    pub status: bool,
    pub editor: Option<EditorConfig>,
}

/// The port of a server whose settings name none.
pub fn df_web_port() -> (r: u16)
    ensures
        r == 3030,
{
    3030
}

pub fn df_open_browser_at_start() -> (r: bool)
    ensures
        !r,
{
    false
}

pub fn df_dump() -> (r: bool)
    ensures
        !r,
{
    false
}

/// The settings that a server runs with, taken over from the settings file.
pub fn web_server_config(web: WebConfig) -> (r: WebServerConfig)
    ensures
        r.root == web.root,
        r.port == web.port,
        r.open_browser_at_start == web.open_browser_at_start,
        r.dump == web.dump,
        r.slow == web.slow,
        r.status == web.status,
        r.editor == web.editor,
{
    WebServerConfig {
        root: web.root,
        port: web.port,
        open_browser_at_start: web.open_browser_at_start,
        dump: web.dump,
        slow: web.slow,
        status: web.status,
        editor: web.editor,
    }
}

/// The address that a server listens on: the given port on this machine
/// alone.
pub fn listen_address(port: u16) -> (r: String)
    ensures
        r@ == "127.0.0.1:"@ + decimal(port as nat),
{
    let mut out = chars_of("127.0.0.1:");
    push_decimal(&mut out, port as u64);
    string_of(out.as_slice())
}

/// The address under which a browser on this machine finds the server.
pub fn browser_address(port: u16) -> (r: String)
    ensures
        r@ == "http://localhost:"@ + decimal(port as nat),
{
    let mut out = chars_of("http://localhost:");
    push_decimal(&mut out, port as u64);
    string_of(out.as_slice())
}

/// The handlers that a request can go to.
#[derive(Clone, Copy, Debug, PartialEq, Eq, Structural)]
pub enum Route {
    Editor,
    Status,
    Slow,
    Dump,
    Static,
}

/// Which endpoints a server offers besides static files.
pub struct Features {
    pub editor: bool,
    pub status: bool,
    pub slow: bool,
    pub dump: bool,
}

/// The endpoints that the settings switch on. The editor endpoint is on
/// where the settings name a directory of clones.
pub open spec fn features_of(config: WebServerConfig) -> Features {
    Features {
        editor: config.editor matches Some(e) && e.repos_dir is Some,
        status: config.status,
        slow: config.slow,
        dump: config.dump,
    }
}

/// The handler that a path goes to: the first of editor, status, slow and
/// dump whose endpoint is switched on and whose prefix the path has; the
/// static file handler for every other path. The prefix of an endpoint that
/// is switched off means nothing.
pub open spec fn route_of(features: Features, path: Seq<char>) -> Route {
    if features.editor && (path == "/editor"@ || starts_with(path, "/editor/"@)) {
        Route::Editor
    } else if features.status && starts_with(path, "/status/"@) {
        Route::Status
    } else if features.slow && is_slow_path(path) {
        Route::Slow
    } else if features.dump && (path == "/dump"@ || starts_with(path, "/dump/"@)) {
        Route::Dump
    } else {
        Route::Static
    }
}

/// With every endpoint switched off, every path is a path of a static file.
pub proof fn lemma_switched_off_is_static(features: Features, path: Seq<char>)
    requires
        !features.editor,
        !features.status,
        !features.slow,
        !features.dump,
    ensures
        route_of(features, path) == Route::Static,
{
}

/// A path goes to an endpoint only where the endpoint is switched on.
pub proof fn lemma_route_is_switched_on(features: Features, path: Seq<char>)
    ensures
        route_of(features, path) == Route::Editor ==> features.editor,
        route_of(features, path) == Route::Status ==> features.status,
        route_of(features, path) == Route::Slow ==> features.slow,
        route_of(features, path) == Route::Dump ==> features.dump,
{
}

/// The handler that the request target `url` goes to, by its path without
/// query and fragment.
pub fn route_request(config: &WebServerConfig, url: &str) -> (r: Route)
    ensures
        r == route_of(features_of(*config), url_path_of(url@)),
{
    let chars = chars_of(url);
    let path = url_path(chars.as_slice());
    let path = path.as_slice();
    let editor = match &config.editor {
        Some(e) => e.repos_dir.is_some(),
        None => false,
    };
    if editor && (is_text(path, "/editor") || has_prefix_text(path, "/editor/")) {
        Route::Editor
    } else if config.status && has_prefix_text(path, "/status/") {
        Route::Status
    } else if config.slow && (is_text(path, "/slow") || has_prefix_text(path, "/slow/")) {
        Route::Slow
    } else if config.dump && (is_text(path, "/dump") || has_prefix_text(path, "/dump/")) {
        Route::Dump
    } else {
        Route::Static
    }
}

/// What is to be done about a request.
pub enum WebAction {
    /// Send this response.
    Respond(HttpResponse),
    /// Wait, then send the response.
    Delay(SlowReply),
    /// Write this description as JSON and answer with `dump_reply`.
    Dump(DumpResponse),
    /// Go on with `handle_editor_request`.
    Editor,
    /// Look the path up in the file system and go on with `resolve_static`.
    Lookup(StaticRequest),
}

/// Whether `action` is what is to be done about `request` under the
/// settings `config`.
pub open spec fn is_action_for(
    action: WebAction,
    config: WebServerConfig,
    request: HttpRequest,
    windows: bool,
) -> bool {
    let path = url_path_of(request.url@);
    match route_of(features_of(config), path) {
        Route::Editor => action is Editor,
        Route::Status => action matches WebAction::Respond(e) && e@ == status_response(path),
        Route::Slow => action matches WebAction::Delay(d) && is_slow_reply(d, path),
        Route::Dump => action matches WebAction::Dump(d) && describes(d, request),
        Route::Static => if path_is_acceptable(path, windows) {
            action matches WebAction::Lookup(t) && t.url_path@ == path && t.relative@
                == relative_path(path)
        } else {
            action matches WebAction::Respond(e) && e@ == plain_text(400, "Bad Request"@)
        },
    }
}

/// Decides what is to be done about a request: hands it to the handler that
/// its path goes to, and gives back the answer, or what has to be done
/// before there is one. `windows` says whether paths are looked up on
/// Windows, where a colon in a path is not accepted.
pub fn handle_web_request(config: &WebServerConfig, request: &HttpRequest, windows: bool) -> (r:
    WebAction)
    ensures
        is_action_for(r, *config, *request, windows),
{
    let chars = chars_of(request.url.as_str());
    let path = url_path(chars.as_slice());
    let path = string_of(path.as_slice());
    match route_request(config, request.url.as_str()) {
        Route::Editor => WebAction::Editor,
        Route::Status => WebAction::Respond(handle_status_request(path.as_str())),
        Route::Slow => WebAction::Delay(handle_slow_request(path.as_str())),
        Route::Dump => WebAction::Dump(handle_dump_request(request)),
        Route::Static => match parse_and_validate_path(request.url.as_str(), windows) {
            Ok(t) => WebAction::Lookup(t),
            Err(e) => WebAction::Respond(e),
        },
    }
}

} // verus!

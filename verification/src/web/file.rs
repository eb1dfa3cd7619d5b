//! Static files: which paths are looked up, how what is found below the
//! root directory is answered, and with what media type a file is served.

use vstd::prelude::*;
use vstd::string::*;
use vstd::utf8::*;
use crate::text::{
    before_first, chars_of, contains_run, find_char, has_char, has_prefix_text, has_run_text,
    is_text, join, join_chars, last_index_of, leading_run_len, lemma_index_of, lemma_last_index_of,
    rfind_char, split, split_chars, starts_with, string_of, string_views, to_vec, trim_start,
    views,
};
use crate::web::common::{create_error_response, plain_text, HttpResponse, ResponseView};
use crate::web::encoding::{charset_label, detect_encoding};
use crate::web::percent::{percent_decode, percent_decoded};

verus! {

/// The last piece of a path: what stands behind its last slash.
pub open spec fn file_name_of(path: Seq<char>) -> Seq<char> {
    path.skip(last_index_of(path, '/') + 1)
}

/// The extension of the file that a path names: what stands behind the last
/// dot of its last piece. A piece without a dot has none, nor has one whose
/// only dot is its first character, nor has `..`.
pub open spec fn extension_of(path: Seq<char>) -> Option<Seq<char>> {
    let name = file_name_of(path);
    let dot = last_index_of(name, '.');
    if dot > 0 && name != ".."@ {
        Some(name.skip(dot + 1))
    } else {
        None
    }
}

/// The media type that goes with an extension.
pub open spec fn media_type(extension: Option<Seq<char>>) -> Seq<char> {
    match extension {
        Some(e) => if e == "html"@ {
            "text/html"@
        } else if e == "css"@ {
            "text/css"@
        } else if e == "js"@ {
            "application/javascript"@
        } else if e == "json"@ {
            "application/json"@
        } else if e == "md"@ {
            "text/markdown"@
        } else if e == "png"@ {
            "image/png"@
        } else if e == "jpg"@ || e == "jpeg"@ {
            "image/jpeg"@
        } else if e == "gif"@ {
            "image/gif"@
        } else if e == "svg"@ {
            "image/svg+xml"@
        } else if e == "ico"@ {
            "image/x-icon"@
        } else if e == "txt"@ {
            "text/plain"@
        } else {
            "application/octet-stream"@
        },
        None => "application/octet-stream"@,
    }
}

fn extension(path: &[char]) -> (r: Option<Vec<char>>)
    ensures
        match r {
            Some(e) => extension_of(path@) == Some(e@),
            None => extension_of(path@) is None,
        },
{
    proof {
        lemma_last_index_of(path@, '/');
    }
    let len = path.len();
    let start: usize = match rfind_char(path, '/') {
        Some(i) => i + 1,
        None => 0,
    };
    let name = &path[start..len];
    assert(name@ == file_name_of(path@));
    proof {
        lemma_last_index_of(name@, '.');
    }
    match rfind_char(name, '.') {
        Some(dot) => {
            if dot > 0 && !is_text(name, "..") {
                let e = to_vec(&name[dot + 1..name.len()]);
                assert(e@ == name@.skip(dot + 1));
                Some(e)
            } else {
                None
            }
        },
        None => None,
    }
}

/// The media type of the file that `path` names, by its extension;
/// `application/octet-stream` for a file without one or with another.
pub fn get_content_type(path: &str) -> (r: String)
    ensures
        r@ == media_type(extension_of(path@)),
{
    let chars = chars_of(path);
    let t: &'static str = match extension(chars.as_slice()) {
        Some(e) => {
            let e = e.as_slice();
            if is_text(e, "html") {
                "text/html"
            } else if is_text(e, "css") {
                "text/css"
            } else if is_text(e, "js") {
                "application/javascript"
            } else if is_text(e, "json") {
                "application/json"
            } else if is_text(e, "md") {
                "text/markdown"
            } else if is_text(e, "png") {
                "image/png"
            } else if is_text(e, "jpg") || is_text(e, "jpeg") {
                "image/jpeg"
            } else if is_text(e, "gif") {
                "image/gif"
            } else if is_text(e, "svg") {
                "image/svg+xml"
            } else if is_text(e, "ico") {
                "image/x-icon"
            } else if is_text(e, "txt") {
                "text/plain"
            } else {
                "application/octet-stream"
            }
        },
        None => "application/octet-stream",
    };
    t.to_string()
}

/// Whether content of this media type is text, whose encoding is named in
/// the response.
pub open spec fn is_text_media(content_type: Seq<char>) -> bool {
    ||| starts_with(content_type, "text/"@)
    ||| content_type == "application/javascript"@
    ||| content_type == "application/json"@
    ||| content_type == "image/svg+xml"@
}

/// Whether content of this media type is text.
pub fn is_text_type(content_type: &str) -> (r: bool)
    ensures
        r == is_text_media(content_type@),
{
    let t = chars_of(content_type);
    let t = t.as_slice();
    has_prefix_text(t, "text/") || is_text(t, "application/javascript") || is_text(
        t,
        "application/json",
    ) || is_text(t, "image/svg+xml")
}


/// The media type that a file is served with: that of its extension, and for
/// text the name of its encoding behind it.
pub open spec fn served_content_type(path: Seq<char>, content: Seq<u8>) -> Seq<char> {
    let base = media_type(extension_of(path));
    if is_text_media(base) {
        base + "; charset="@ + charset_label(content)
    } else {
        base
    }
}

/// The response that serves a file.
pub open spec fn file_response(path: Seq<char>, content: Option<Seq<u8>>) -> ResponseView {
    match content {
        Some(bytes) => ResponseView {
            status: 200,
            content_type: Some(served_content_type(path, bytes)),
            headers: Seq::empty(),
            body: bytes,
        },
        None => plain_text(500, "Internal Server Error"@),
    }
}

/// Serves the file at `path`, whose content was read into `content`; `None`
/// says that it could not be read, which gives 500.
pub fn create_file_response(path: &str, content: Option<Vec<u8>>) -> (r: HttpResponse)
    ensures
        r@ == file_response(
            path@,
            match content {
                Some(bytes) => Some(bytes@),
                None => None,
            },
        ),
{
    match content {
        Some(bytes) => {
            let mut content_type = get_content_type(path);
            if is_text_type(content_type.as_str()) {
                let charset = detect_encoding(bytes.as_slice());
                content_type.append("; charset=");
                content_type.append(charset.as_str());
            }
            HttpResponse::from_data(bytes).with_content_type(content_type.as_str())
        },
        None => create_error_response(500, "Internal Server Error"),
    }
}

/// The path of a request target: what stands before its query and its fragment.
pub open spec fn url_path_of(url: Seq<char>) -> Seq<char> {
    before_first(before_first(url, '?'), '#')
}

/// The path of a request target.
pub fn url_path(url: &[char]) -> (path: Vec<char>)
    ensures
        path@ == url_path_of(url@),
{
    proof {
        lemma_index_of(url@, '?');
    }
    let q = find_char(url, '?');
    let before_query = &url[0..q];
    proof {
        lemma_index_of(before_query@, '#');
    }
    let h = find_char(before_query, '#');
    to_vec(&before_query[0..h])
}

/// The pieces of a path that are looked up below the root: the pieces
/// between slashes of the path without the slashes at its start.
pub open spec fn relative_segments(url_path: Seq<char>) -> Seq<Seq<char>> {
    split(trim_start(url_path, '/'), '/')
}

/// Whether a piece of a path can be looked up: it can be percent-decoded, and
/// decoded it holds no `..`.
pub open spec fn segment_is_safe(segment: Seq<char>) -> bool {
    match percent_decoded(segment) {
        Some(d) => !contains_run(d, ".."@),
        None => false,
    }
}

/// Whether a path is looked up at all. It is not where it holds `..` or
/// `//` as written, where one of its pieces cannot be decoded or holds `..`
/// once decoded, or, on Windows, where it holds a colon. The path `/` is
/// always looked up.
pub open spec fn path_is_acceptable(url_path: Seq<char>, windows: bool) -> bool {
    &&& !contains_run(url_path, ".."@)
    &&& !contains_run(url_path, "//"@)
    &&& (url_path == "/"@ || {
        &&& !(windows && trim_start(url_path, '/').contains(':'))
        &&& forall|i: int|
            0 <= i < relative_segments(url_path).len() ==> segment_is_safe(
                #[trigger] relative_segments(url_path)[i],
            )
    })
}

/// The pieces of a path, each percent-decoded.
pub open spec fn decoded_segments(segments: Seq<Seq<char>>) -> Seq<Seq<char>> {
    Seq::new(segments.len(), |i: int| percent_decoded(segments[i])->0)
}

/// The path below the root that a request path names: `index.html` for `/`,
/// and else its pieces, decoded, with a slash between each two.
pub open spec fn relative_path(url_path: Seq<char>) -> Seq<char> {
    if url_path == "/"@ {
        "index.html"@
    } else {
        join(decoded_segments(relative_segments(url_path)), "/"@)
    }
}

/// A request for a file or a directory below the root.
pub struct StaticRequest {
    /// The path of the request target, as it was written.
    pub url_path: String,
    /// The path to look up below the root.
    pub relative: String,
}

/// Any path that holds `..` as written, and any path other than `/` with a
/// piece that holds `..` once percent-decoded, is not looked up.
pub proof fn lemma_traversal_is_rejected(url_path: Seq<char>, windows: bool)
    requires
        contains_run(url_path, ".."@) || (url_path != "/"@ && exists|i: int|
            0 <= i < relative_segments(url_path).len() && (
            #[trigger] percent_decoded(relative_segments(url_path)[i]) matches Some(d)
                && contains_run(d, ".."@))),
    ensures
        !path_is_acceptable(url_path, windows),
{
    if !contains_run(url_path, ".."@) {
        let i = choose|i: int|
            0 <= i < relative_segments(url_path).len() && (
            #[trigger] percent_decoded(relative_segments(url_path)[i]) matches Some(d)
                && contains_run(d, ".."@));
        assert(!segment_is_safe(relative_segments(url_path)[i]));
    }
}

/// Reads the path of a request target and decides whether it is looked up
/// below the root. A path that is not gets 400 `Bad Request`.
pub fn parse_and_validate_path(url: &str, windows: bool) -> (r: Result<StaticRequest, HttpResponse>)
    ensures
        match r {
            Ok(t) => path_is_acceptable(url_path_of(url@), windows) && t.url_path@ == url_path_of(
                url@,
            ) && t.relative@ == relative_path(url_path_of(url@)),
            Err(e) => !path_is_acceptable(url_path_of(url@), windows) && e@ == plain_text(
                400,
                "Bad Request"@,
            ),
        },
{
    let chars = chars_of(url);
    let path = url_path(chars.as_slice());
    let path = path.as_slice();
    if has_run_text(path, "..") || has_run_text(path, "//") {
        return Err(create_error_response(400, "Bad Request"));
    }
    if is_text(path, "/") {
        return Ok(StaticRequest { url_path: string_of(path), relative: "index.html".to_string() });
    }
    let n = leading_run_len(path, '/');
    let relative = &path[n..path.len()];
    assert(relative@ == trim_start(path@, '/'));
    if windows && has_char(relative, ':') {
        return Err(create_error_response(400, "Bad Request"));
    }
    let segments = split_chars(relative, '/');
    assert(views(segments@) == relative_segments(path@));
    let mut decoded: Vec<Vec<char>> = Vec::new();
    let mut i: usize = 0;
    while i < segments.len()
        invariant
            i <= segments.len(),
            decoded.len() == i,
            views(segments@) == relative_segments(path@),
            forall|j: int| 0 <= j < i ==> segment_is_safe(#[trigger] views(segments@)[j]),
            forall|j: int|
                0 <= j < i ==> (#[trigger] decoded@[j])@ == percent_decoded(views(segments@)[j])->0,
            !contains_run(path@, ".."@),
            !contains_run(path@, "//"@),
            path@ != "/"@,
            path@ == url_path_of(url@),
        decreases segments.len() - i,
    {
        let text = string_of(segments[i].as_slice());
        assert(text@ == views(segments@)[i as int]);
        match percent_decode(text.as_str()) {
            Some(d) => {
                let d = chars_of(d.as_str());
                if has_run_text(d.as_slice(), "..") {
                    assert(!segment_is_safe(relative_segments(path@)[i as int]));
                    return Err(create_error_response(400, "Bad Request"));
                }
                decoded.push(d);
            },
            None => {
                assert(!segment_is_safe(relative_segments(path@)[i as int]));
                return Err(create_error_response(400, "Bad Request"));
            },
        }
        i += 1;
    }
    assert(views(decoded@) =~= decoded_segments(relative_segments(path@)));
    let sep = chars_of("/");
    let joined = join_chars(&decoded, sep.as_slice());
    Ok(StaticRequest { url_path: string_of(path), relative: string_of(joined.as_slice()) })
}

/// What a path in the file system is.
#[derive(Clone, Copy, Debug, PartialEq, Eq, Structural)]
pub enum FileKind {
    Missing,
    File,
    Directory,
    Other,
}

/// What the file system says of a request: the facts that decide how it is
/// answered. Paths are given by their components.
pub struct PathProbe {
    /// The root directory as configured.
    pub root: Vec<String>,
    /// The root directory in canonical form; as configured where it has none.
    pub canonical_root: Vec<String>,
    /// The root joined with the relative path of the request.
    pub candidate: Vec<String>,
    /// The candidate in canonical form, or `None` where it has none.
    pub canonical: Option<Vec<String>>,
    /// What the candidate is.
    pub target: FileKind,
    /// What `index.html` inside the candidate is.
    pub index: FileKind,
    /// Whether the root as configured is a directory.
    pub root_is_dir: bool,
}

/// The facts of a `PathProbe`.
pub struct ProbeView {
    pub root: Seq<Seq<char>>,
    pub canonical_root: Seq<Seq<char>>,
    pub candidate: Seq<Seq<char>>,
    pub canonical: Option<Seq<Seq<char>>>,
    pub target: FileKind,
    pub index: FileKind,
    pub root_is_dir: bool,
}

impl View for PathProbe {
    type V = ProbeView;

    open spec fn view(&self) -> ProbeView {
        ProbeView {
            root: string_views(self.root@),
            canonical_root: string_views(self.canonical_root@),
            candidate: string_views(self.candidate@),
            canonical: match self.canonical {
                Some(c) => Some(string_views(c@)),
                None => None,
            },
            target: self.target,
            index: self.index,
            root_is_dir: self.root_is_dir,
        }
    }
}

/// Which of the paths of a probe an answer is made from.
#[derive(Clone, Copy, Debug, PartialEq, Eq, Structural)]
pub enum ServedPath {
    /// The candidate in canonical form.
    Canonical,
    /// `index.html` inside the candidate in canonical form.
    CanonicalIndex,
    /// The candidate as joined.
    Candidate,
    /// `index.html` inside the candidate as joined.
    CandidateIndex,
    /// The root as configured.
    Root,
}

/// How a request for a path below the root is answered.
#[derive(Clone, Copy, Debug, PartialEq, Eq, Structural)]
pub enum StaticAction {
    /// Answer 404 `Not Found`.
    NotFound,
    /// Read the file and answer with `create_file_response`.
    ServeFile(ServedPath),
    /// Read the directory and answer with `create_directory_listing`.
    ListDirectory(ServedPath),
}

/// Whether `path` lies in `root`: the components of `root` are the first
/// components of `path`.
pub open spec fn is_within(root: Seq<Seq<char>>, path: Seq<Seq<char>>) -> bool {
    root.is_prefix_of(path)
}

/// Whether `path` lies in `root`.
pub fn path_is_within(root: &Vec<String>, path: &Vec<String>) -> (r: bool)
    ensures
        r == is_within(string_views(root@), string_views(path@)),
{
    if root.len() > path.len() {
        return false;
    }
    let ghost a = string_views(root@);
    let ghost b = string_views(path@);
    let mut i: usize = 0;
    while i < root.len()
        invariant
            i <= root.len(),
            root.len() <= path.len(),
            a == string_views(root@),
            b == string_views(path@),
            forall|j: int| 0 <= j < i ==> a[j] == b[j],
        decreases root.len() - i,
    {
        if root[i] != path[i] {
            assert(a[i as int] != b[i as int]);
            return false;
        }
        i += 1;
    }
    assert(a =~= b.subrange(0, a.len() as int));
    true
}

/// How a request is answered, given what the file system says.
///
/// A candidate with a canonical form is answered from that form, and only
/// where it lies in the canonical root: a directory by its `index.html` if
/// there is one and by a listing if not, anything else as a file. A
/// candidate without one is answered only where it exists and lies in the
/// root as configured; for the path `/` the root itself is listed where it
/// holds no `index.html`.
pub open spec fn static_decision(url_path: Seq<char>, p: ProbeView) -> StaticAction {
    match p.canonical {
        Some(f) => if !is_within(p.canonical_root, f) {
            StaticAction::NotFound
        } else if p.target == FileKind::Directory {
            if p.index != FileKind::Missing {
                StaticAction::ServeFile(ServedPath::CanonicalIndex)
            } else {
                StaticAction::ListDirectory(ServedPath::Canonical)
            }
        } else {
            StaticAction::ServeFile(ServedPath::Canonical)
        },
        None => if url_path == "/"@ {
            if p.target == FileKind::File {
                StaticAction::ServeFile(ServedPath::Candidate)
            } else if p.root_is_dir {
                StaticAction::ListDirectory(ServedPath::Root)
            } else {
                StaticAction::NotFound
            }
        } else if p.target == FileKind::File {
            if is_within(p.root, p.candidate) {
                StaticAction::ServeFile(ServedPath::Candidate)
            } else {
                StaticAction::NotFound
            }
        } else if p.target == FileKind::Directory {
            if !is_within(p.root, p.candidate) {
                StaticAction::NotFound
            } else if p.index == FileKind::File {
                StaticAction::ServeFile(ServedPath::CandidateIndex)
            } else {
                StaticAction::ListDirectory(ServedPath::Candidate)
            }
        } else {
            StaticAction::NotFound
        },
    }
}

/// A path whose canonical form does not lie in the canonical root is
/// answered with 404, whatever else the file system says of it.
pub proof fn lemma_outside_root_is_not_found(url_path: Seq<char>, p: ProbeView)
    requires
        p.canonical matches Some(f) && !is_within(p.canonical_root, f),
    ensures
        static_decision(url_path, p) == StaticAction::NotFound,
{
}

/// Whatever is served or listed from a canonical path lies in the canonical
/// root.
pub proof fn lemma_served_canonical_is_within_root(url_path: Seq<char>, p: ProbeView)
    requires
        p.canonical is Some,
        static_decision(url_path, p) != StaticAction::NotFound,
    ensures
        is_within(p.canonical_root, p.canonical->0),
{
}

/// A path without a canonical form that does not lie in the root as
/// configured is answered with 404, but for the path `/`, which names a file
/// of the root itself.
pub proof fn lemma_candidate_outside_root_is_not_found(url_path: Seq<char>, p: ProbeView)
    requires
        p.canonical is None,
        url_path != "/"@,
        !is_within(p.root, p.candidate),
    ensures
        static_decision(url_path, p) == StaticAction::NotFound,
{
}

/// Decides how a request for `url_path` is answered, given what the file
/// system says of it.
pub fn resolve_static(url_path: &str, probe: &PathProbe) -> (r: StaticAction)
    ensures
        r == static_decision(url_path@, probe@),
{
    match &probe.canonical {
        Some(f) => {
            if !path_is_within(&probe.canonical_root, f) {
                StaticAction::NotFound
            } else if probe.target == FileKind::Directory {
                if probe.index != FileKind::Missing {
                    StaticAction::ServeFile(ServedPath::CanonicalIndex)
                } else {
                    StaticAction::ListDirectory(ServedPath::Canonical)
                }
            } else {
                StaticAction::ServeFile(ServedPath::Canonical)
            }
        },
        None => {
            let path = chars_of(url_path);
            if is_text(path.as_slice(), "/") {
                if probe.target == FileKind::File {
                    StaticAction::ServeFile(ServedPath::Candidate)
                } else if probe.root_is_dir {
                    StaticAction::ListDirectory(ServedPath::Root)
                } else {
                    StaticAction::NotFound
                }
            } else if probe.target == FileKind::File {
                if path_is_within(&probe.root, &probe.candidate) {
                    StaticAction::ServeFile(ServedPath::Candidate)
                } else {
                    StaticAction::NotFound
                }
            } else if probe.target == FileKind::Directory {
                if !path_is_within(&probe.root, &probe.candidate) {
                    StaticAction::NotFound
                } else if probe.index == FileKind::File {
                    StaticAction::ServeFile(ServedPath::CandidateIndex)
                } else {
                    StaticAction::ListDirectory(ServedPath::Candidate)
                }
            } else {
                StaticAction::NotFound
            }
        },
    }
}

/// The answer to a request whose path is not found below the root.
pub fn not_found_response() -> (r: HttpResponse)
    ensures
        r@ == plain_text(404, "Not Found"@),
{
    create_error_response(404, "Not Found")
}

} // verus!

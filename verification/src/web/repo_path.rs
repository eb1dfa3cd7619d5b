//! Paths in the form that a repository host uses,
//! `[host/]owner/repo/(blob|tree)/branch/path`, and the files of local clones
//! that they name.

use vstd::prelude::*;
use vstd::string::*;
use crate::text::{
    chars_of, is_text, join, join_chars, push_chars, push_str, split, split_chars, string_of,
    string_views, to_vec, views,
};

verus! {

/// A path as a token is bound to it: with one slash at its start.
pub open spec fn normalized_path(path: Seq<char>) -> Seq<char> {
    if path.len() == 0 {
        "/"@
    } else if path[0] == '/' {
        path
    } else {
        "/"@ + path
    }
}

pub fn normalize_chars(path: &[char]) -> (r: Vec<char>)
    ensures
        r@ == normalized_path(path@),
{
    if path.len() == 0 {
        chars_of("/")
    } else if path[0] == '/' {
        to_vec(path)
    } else {
        let mut r = chars_of("/");
        push_chars(&mut r, path);
        r
    }
}

/// The path with a slash at its start: `/` for the empty path, the path
/// itself where it begins with a slash, and else the path behind a slash.
pub fn normalize_github_path_for_token(path: &str) -> (r: String)
    ensures
        r@ == normalized_path(path@),
{
    let chars = chars_of(path);
    let r = normalize_chars(chars.as_slice());
    string_of(r.as_slice())
}

/// The parts of a repository path.
pub struct ParsedRepoPath {
    pub host: Option<String>,
    pub owner: String,
    pub repo: String,
    /// The pieces of the file's path inside the repository.
    pub file_path_parts: Vec<String>,
}

/// The texts of a `ParsedRepoPath`.
pub struct RepoPathView {
    pub host: Option<Seq<char>>,
    pub owner: Seq<char>,
    pub repo: Seq<char>,
    pub file_path_parts: Seq<Seq<char>>,
}

impl View for ParsedRepoPath {
    type V = RepoPathView;

    open spec fn view(&self) -> RepoPathView {
        RepoPathView {
            host: match self.host {
                Some(h) => Some(h@),
                None => None,
            },
            owner: self.owner@,
            repo: self.repo@,
            file_path_parts: string_views(self.file_path_parts@),
        }
    }
}

/// The pieces that are not empty, in order.
pub open spec fn non_empty(pieces: Seq<Seq<char>>) -> Seq<Seq<char>>
    decreases pieces.len(),
{
    if pieces.len() == 0 {
        Seq::empty()
    } else if pieces.last().len() == 0 {
        non_empty(pieces.drop_last())
    } else {
        non_empty(pieces.drop_last()).push(pieces.last())
    }
}

/// The pieces of a repository path: what stands between its slashes.
pub open spec fn repo_segments(path: Seq<char>) -> Seq<Seq<char>> {
    non_empty(split(normalized_path(path), '/'))
}

/// Whether a piece marks where the branch and the file's path begin.
pub open spec fn is_blob_or_tree(piece: Seq<char>) -> bool {
    piece == "blob"@ || piece == "tree"@
}

/// The parts of a repository path. With `blob` or `tree` as the fourth of
/// six or more pieces, the first three are host, owner and repository and
/// the file's path begins at the sixth. Else, with `blob` or `tree` as the
/// third of four or more, the first two are owner and repository and the
/// file's path begins at the fifth. Any other path has no parts.
pub open spec fn parsed_repo_path(path: Seq<char>) -> Option<RepoPathView> {
    let s = repo_segments(path);
    if s.len() >= 6 && is_blob_or_tree(s[3]) {
        Some(
            RepoPathView {
                host: Some(s[0]),
                owner: s[1],
                repo: s[2],
                file_path_parts: s.skip(5),
            },
        )
    } else if s.len() >= 4 && is_blob_or_tree(s[2]) {
        Some(RepoPathView { host: None, owner: s[0], repo: s[1], file_path_parts: s.skip(4) })
    } else {
        None
    }
}

fn segments_of(path: &[char]) -> (r: Vec<Vec<char>>)
    ensures
        views(r@) == repo_segments(path@),
{
    let normalized = normalize_chars(path);
    let pieces = split_chars(normalized.as_slice(), '/');
    let ghost all = views(pieces@);
    let mut r: Vec<Vec<char>> = Vec::new();
    let mut i: usize = 0;
    assert(views(r@) =~= Seq::empty());
    while i < pieces.len()
        invariant
            i <= pieces.len(),
            all == views(pieces@),
            views(r@) == non_empty(all.take(i as int)),
        decreases pieces.len() - i,
    {
        assert(all.take(i + 1).drop_last() == all.take(i as int));
        assert(all.take(i + 1).last() == pieces@[i as int]@);
        if pieces[i].len() > 0 {
            let ghost before = views(r@);
            r.push(to_vec(pieces[i].as_slice()));
            assert(views(r@) =~= before.push(pieces@[i as int]@));
        }
        i += 1;
    }
    assert(all.take(pieces.len() as int) == all);
    r
}

fn strings_from(pieces: &Vec<Vec<char>>, start: usize) -> (r: Vec<String>)
    requires
        start <= pieces.len(),
    ensures
        string_views(r@) == views(pieces@).skip(start as int),
{
    let mut r: Vec<String> = Vec::new();
    let mut i: usize = start;
    while i < pieces.len()
        invariant
            start <= i <= pieces.len(),
            r.len() == i - start,
            forall|j: int| 0 <= j < r.len() ==> (#[trigger] r@[j])@ == pieces@[start + j]@,
        decreases pieces.len() - i,
    {
        r.push(string_of(pieces[i].as_slice()));
        i += 1;
    }
    assert(string_views(r@) =~= views(pieces@).skip(start as int));
    r
}

fn blob_or_tree(piece: &[char]) -> (r: bool)
    ensures
        r == is_blob_or_tree(piece@),
{
    is_text(piece, "blob") || is_text(piece, "tree")
}

/// Reads a repository path into its parts, as far as it has the form of one.
pub fn parse_repo_path_best_effort(path: &str) -> (r: Option<ParsedRepoPath>)
    ensures
        match r {
            Some(p) => parsed_repo_path(path@) == Some(p@),
            None => parsed_repo_path(path@) is None,
        },
{
    let chars = chars_of(path);
    let s = segments_of(chars.as_slice());
    if s.len() < 4 {
        return None;
    }
    if s.len() >= 6 && blob_or_tree(s[3].as_slice()) {
        return Some(
            ParsedRepoPath {
                host: Some(string_of(s[0].as_slice())),
                owner: string_of(s[1].as_slice()),
                repo: string_of(s[2].as_slice()),
                file_path_parts: strings_from(&s, 5),
            },
        );
    }
    if blob_or_tree(s[2].as_slice()) {
        return Some(
            ParsedRepoPath {
                host: None,
                owner: string_of(s[0].as_slice()),
                repo: string_of(s[1].as_slice()),
                file_path_parts: strings_from(&s, 4),
            },
        );
    }
    None
}

/// The path of a file below the directory of clones, piece by piece: the
/// host, if clones are kept by host, then owner, repository and the file's
/// path. A path without the form of a repository path has none, nor has a
/// path without a host where clones are kept by host.
pub open spec fn local_lib_path(path: Seq<char>, include_host: bool) -> Result<
    Seq<Seq<char>>,
    Seq<char>,
> {
    match parsed_repo_path(path) {
        None => Err("Invalid GitHub path format"@),
        Some(p) => if include_host {
            match p.host {
                Some(h) => Ok(seq![h, p.owner, p.repo] + p.file_path_parts),
                None => Err("includeHost is true but host segment is missing in path"@),
            }
        } else {
            Ok(seq![p.owner, p.repo] + p.file_path_parts)
        },
    }
}

/// The texts of a result of pieces or a message.
pub open spec fn pieces_view(r: Result<Vec<String>, String>) -> Result<Seq<Seq<char>>, Seq<char>> {
    match r {
        Ok(p) => Ok(string_views(p@)),
        Err(e) => Err(e@),
    }
}

/// The path of a file below the directory of clones, piece by piece.
pub fn get_local_lib_path(github_path: &str, include_host: bool) -> (r: Result<Vec<String>, String>)
    ensures
        pieces_view(r) == local_lib_path(github_path@, include_host),
{
    let parsed = match parse_repo_path_best_effort(github_path) {
        Some(p) => p,
        None => {
            return Err("Invalid GitHub path format".to_string());
        },
    };
    let ghost p = parsed@;
    let mut pieces: Vec<String> = Vec::new();
    if include_host {
        match parsed.host {
            Some(h) => pieces.push(h),
            None => {
                return Err("includeHost is true but host segment is missing in path".to_string());
            },
        }
    }
    pieces.push(parsed.owner);
    pieces.push(parsed.repo);
    let ghost head = string_views(pieces@);
    assert(head =~= if include_host {
        seq![p.host->0, p.owner, p.repo]
    } else {
        seq![p.owner, p.repo]
    });
    let parts = parsed.file_path_parts;
    let mut i: usize = 0;
    while i < parts.len()
        invariant
            i <= parts.len(),
            string_views(pieces@) == head + string_views(parts@).take(i as int),
        decreases parts.len() - i,
    {
        let ghost before = string_views(pieces@);
        pieces.push(parts[i].clone());
        assert(string_views(pieces@) =~= before.push(parts@[i as int]@));
        assert(string_views(parts@).take(i + 1) =~= string_views(parts@).take(i as int).push(
            parts@[i as int]@,
        ));
        i += 1;
    }
    assert(string_views(parts@).take(parts.len() as int) == string_views(parts@));
    Ok(pieces)
}

/// A directory and the pieces of a path below it as one path: the pieces
/// behind the directory, with a slash before each that has none before it.
pub open spec fn joined_path(dir: Seq<char>, pieces: Seq<Seq<char>>) -> Seq<char> {
    if dir.len() == 0 || dir.last() == '/' {
        dir + join(pieces, "/"@)
    } else {
        dir + "/"@ + join(pieces, "/"@)
    }
}

pub fn join_path(dir: &str, pieces: &Vec<String>) -> (r: String)
    ensures
        r@ == joined_path(dir@, string_views(pieces@)),
{
    let mut out = chars_of(dir);
    if out.len() > 0 && out[out.len() - 1] != '/' {
        push_str(&mut out, "/");
    }
    let mut parts: Vec<Vec<char>> = Vec::new();
    let mut i: usize = 0;
    while i < pieces.len()
        invariant
            i <= pieces.len(),
            parts.len() == i,
            forall|j: int| 0 <= j < i ==> (#[trigger] parts@[j])@ == pieces@[j]@,
        decreases pieces.len() - i,
    {
        parts.push(chars_of(pieces[i].as_str()));
        i += 1;
    }
    assert(views(parts@) =~= string_views(pieces@));
    let sep = chars_of("/");
    let rest = join_chars(&parts, sep.as_slice());
    push_chars(&mut out, rest.as_slice());
    string_of(out.as_slice())
}

} // verus!

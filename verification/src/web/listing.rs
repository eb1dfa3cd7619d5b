//! The page that lists a directory.

use vstd::prelude::*;
use vstd::string::*;
use vstd::utf8::*;
use crate::text::{
    chars_of, html_escaped, is_text, join, join_chars, last_index_of, lemma_last_index_of,
    push_html_escaped, push_str, rfind_char, split, split_chars, string_of, to_vec, trim_end,
    trimmed_end_len, views,
};
use crate::web::common::{HttpResponse, ResponseView};
use crate::web::percent::{percent_decode, percent_decoded, percent_encode, percent_encoded};

verus! {

/// The order of names in a listing: character by character, by code point; a
/// name comes before every longer name that begins with it.
pub open spec fn lex_le(a: Seq<char>, b: Seq<char>) -> bool
    decreases a.len(),
{
    if a.len() == 0 {
        true
    } else if b.len() == 0 {
        false
    } else if a[0] == b[0] {
        lex_le(a.drop_first(), b.drop_first())
    } else {
        a[0] < b[0]
    }
}

/// Whether `a` comes before `b` in a listing, or is `b`.
pub fn name_le(a: &[char], b: &[char]) -> (r: bool)
    ensures
        r == lex_le(a@, b@),
{
    let mut i: usize = 0;
    assert(a@.skip(0) == a@ && b@.skip(0) == b@);
    loop
        invariant
            i <= a.len(),
            i <= b.len(),
            lex_le(a@, b@) == lex_le(a@.skip(i as int), b@.skip(i as int)),
        decreases a.len() - i,
    {
        if i == a.len() {
            return true;
        }
        if i == b.len() {
            return false;
        }
        assert(a@.skip(i as int)[0] == a@[i as int] && b@.skip(i as int)[0] == b@[i as int]);
        if a[i] != b[i] {
            return a[i] < b[i];
        }
        assert(a@.skip(i as int).drop_first() == a@.skip(i + 1));
        assert(b@.skip(i as int).drop_first() == b@.skip(i + 1));
        i += 1;
    }
}

/// `sorted` with `x` put behind the last name that is not after it.
pub open spec fn insert_sorted(sorted: Seq<Seq<char>>, x: Seq<char>) -> Seq<Seq<char>>
    decreases sorted.len(),
{
    if sorted.len() == 0 {
        seq![x]
    } else if lex_le(sorted.last(), x) {
        sorted.push(x)
    } else {
        insert_sorted(sorted.drop_last(), x).push(sorted.last())
    }
}

/// The names in listing order.
pub open spec fn sorted_names(names: Seq<Seq<char>>) -> Seq<Seq<char>>
    decreases names.len(),
{
    if names.len() == 0 {
        Seq::empty()
    } else {
        insert_sorted(sorted_names(names.drop_last()), names.last())
    }
}

/// Of two names, one comes before the other or is the other.
pub proof fn lemma_lex_le_total(a: Seq<char>, b: Seq<char>)
    ensures
        lex_le(a, b) || lex_le(b, a),
    decreases a.len(),
{
    if a.len() > 0 && b.len() > 0 && a[0] == b[0] {
        lemma_lex_le_total(a.drop_first(), b.drop_first());
    }
}

/// The order of names is transitive.
pub proof fn lemma_lex_le_transitive(a: Seq<char>, b: Seq<char>, c: Seq<char>)
    requires
        lex_le(a, b),
        lex_le(b, c),
    ensures
        lex_le(a, c),
    decreases a.len(),
{
    if a.len() > 0 && b.len() > 0 && c.len() > 0 && a[0] == b[0] && b[0] == c[0] {
        lemma_lex_le_transitive(a.drop_first(), b.drop_first(), c.drop_first());
    }
}

/// Whether each name comes before those behind it, or is the same.
pub open spec fn is_sorted(names: Seq<Seq<char>>) -> bool {
    forall|i: int, j: int| 0 <= i < j < names.len() ==> lex_le(names[i], names[j])
}

/// Putting a name into names in order gives names in order: the same names
/// and the new one, each as often as before.
pub proof fn lemma_insert_sorted(sorted: Seq<Seq<char>>, x: Seq<char>)
    requires
        is_sorted(sorted),
    ensures
        is_sorted(insert_sorted(sorted, x)),
        insert_sorted(sorted, x).to_multiset() == sorted.to_multiset().insert(x),
        insert_sorted(sorted, x).len() == sorted.len() + 1,
    decreases sorted.len(),
{
    let r = insert_sorted(sorted, x);
    if sorted.len() == 0 {
        assert(r == sorted.push(x));
        vstd::seq_lib::to_multiset_build(sorted, x);
    } else if lex_le(sorted.last(), x) {
        vstd::seq_lib::to_multiset_build(sorted, x);
        assert forall|i: int, j: int| 0 <= i < j < r.len() implies lex_le(r[i], r[j]) by {
            if j == sorted.len() {
                if i < sorted.len() - 1 {
                    lemma_lex_le_transitive(sorted[i], sorted.last(), x);
                }
            }
        }
    } else {
        let front = sorted.drop_last();
        let last = sorted.last();
        assert(is_sorted(front)) by {
            assert forall|i: int, j: int| 0 <= i < j < front.len() implies lex_le(
                front[i],
                front[j],
            ) by {
                assert(front[i] == sorted[i] && front[j] == sorted[j]);
            }
        }
        lemma_insert_sorted(front, x);
        let inner = insert_sorted(front, x);
        vstd::seq_lib::to_multiset_build(inner, last);
        vstd::seq_lib::to_multiset_build(front, last);
        assert(sorted == front.push(last));
        assert(r.to_multiset() =~= sorted.to_multiset().insert(x));
        lemma_lex_le_total(last, x);
        assert forall|i: int| 0 <= i < inner.len() implies lex_le(#[trigger] inner[i], last) by {
            inner.to_multiset_ensures();
            front.to_multiset_ensures();
            assert(inner.contains(inner[i]));
            assert(inner.to_multiset().count(inner[i]) > 0);
            if inner[i] != x {
                assert(front.to_multiset().count(inner[i]) > 0);
                assert(front.contains(inner[i]));
                let k = choose|k: int| 0 <= k < front.len() && front[k] == inner[i];
                assert(sorted[k] == front[k]);
            }
        }
        assert forall|i: int, j: int| 0 <= i < j < r.len() implies lex_le(r[i], r[j]) by {
            if j < inner.len() {
                assert(r[i] == inner[i] && r[j] == inner[j]);
            }
        }
    }
}

/// The names in listing order are in order, and they are the names given,
/// each as often as it was given.
pub proof fn lemma_sorted_names(names: Seq<Seq<char>>)
    ensures
        is_sorted(sorted_names(names)),
        sorted_names(names).to_multiset() == names.to_multiset(),
        sorted_names(names).len() == names.len(),
    decreases names.len(),
{
    if names.len() > 0 {
        lemma_sorted_names(names.drop_last());
        lemma_insert_sorted(sorted_names(names.drop_last()), names.last());
        vstd::seq_lib::to_multiset_build(names.drop_last(), names.last());
        assert(names == names.drop_last().push(names.last()));
    } else {
        assert(names =~= Seq::empty());
    }
}

fn insert_name(sorted: &mut Vec<Vec<char>>, x: Vec<char>)
    ensures
        views(final(sorted)@) == insert_sorted(views(old(sorted)@), x@),
{
    let ghost all = views(sorted@);
    let mut k: usize = sorted.len();
    assert(all.take(k as int) == all);
    assert(all.skip(k as int) =~= Seq::empty());
    while k > 0 && !name_le(sorted[k - 1].as_slice(), x.as_slice())
        invariant
            k <= sorted.len(),
            sorted@ == old(sorted)@,
            all == views(sorted@),
            insert_sorted(all, x@) == insert_sorted(all.take(k as int), x@) + all.skip(k as int),
        decreases k,
    {
        assert(all.take(k as int).drop_last() == all.take(k - 1));
        assert(all.take(k as int).last() == all[k - 1]);
        assert(seq![all[k - 1]] + all.skip(k as int) =~= all.skip(k - 1));
        assert(insert_sorted(all.take(k as int), x@) == insert_sorted(all.take(k - 1), x@).push(
            all[k - 1],
        ));
        assert(insert_sorted(all.take(k - 1), x@).push(all[k - 1]) + all.skip(k as int)
            =~= insert_sorted(all.take(k - 1), x@) + all.skip(k - 1));
        k -= 1;
    }
    assert(insert_sorted(all.take(k as int), x@) == all.take(k as int).push(x@)) by {
        if k > 0 {
            assert(all.take(k as int).last() == all[k - 1]);
        }
    }
    sorted.insert(k, x);
    assert(views(sorted@) =~= all.take(k as int).push(x@) + all.skip(k as int));
}

/// The names in listing order.
pub fn sort_names(names: &Vec<Vec<char>>) -> (sorted: Vec<Vec<char>>)
    ensures
        views(sorted@) == sorted_names(views(names@)),
{
    let mut sorted: Vec<Vec<char>> = Vec::new();
    let mut i: usize = 0;
    assert(views(sorted@) =~= Seq::empty());
    while i < names.len()
        invariant
            i <= names.len(),
            views(sorted@) == sorted_names(views(names@).take(i as int)),
        decreases names.len() - i,
    {
        assert(views(names@).take(i + 1).drop_last() == views(names@).take(i as int));
        assert(views(names@).take(i + 1).last() == names@[i as int]@);
        insert_name(&mut sorted, to_vec(names[i].as_slice()));
        i += 1;
    }
    assert(views(names@).take(names.len() as int) == views(names@));
    sorted
}

/// One entry of a directory: its name, and whether it is a directory.
pub struct DirEntry {
    pub name: String,
    pub is_dir: bool,
}

impl View for DirEntry {
    type V = (Seq<char>, bool);

    open spec fn view(&self) -> (Seq<char>, bool) {
        (self.name@, self.is_dir)
    }
}

/// The names and kinds of a list of entries.
pub open spec fn entry_views(entries: Seq<DirEntry>) -> Seq<(Seq<char>, bool)> {
    Seq::new(entries.len(), |i: int| entries[i]@)
}

/// Whether a listing leaves the name out: names that begin with a dot are hidden.
pub open spec fn is_hidden(name: Seq<char>) -> bool {
    name.len() > 0 && name[0] == '.'
}

/// The names of the entries that a listing shows among the directories (or,
/// with `dirs` false, among the files), in the order of `entries`.
pub open spec fn shown_names(entries: Seq<(Seq<char>, bool)>, dirs: bool) -> Seq<Seq<char>>
    decreases entries.len(),
{
    if entries.len() == 0 {
        Seq::empty()
    } else {
        let rest = shown_names(entries.drop_last(), dirs);
        let e = entries.last();
        if e.1 == dirs && !is_hidden(e.0) {
            rest.push(e.0)
        } else {
            rest
        }
    }
}

fn collect_shown(entries: &Vec<DirEntry>, dirs: bool) -> (names: Vec<Vec<char>>)
    ensures
        views(names@) == shown_names(entry_views(entries@), dirs),
{
    let mut names: Vec<Vec<char>> = Vec::new();
    let mut i: usize = 0;
    assert(views(names@) =~= Seq::empty());
    while i < entries.len()
        invariant
            i <= entries.len(),
            views(names@) == shown_names(entry_views(entries@).take(i as int), dirs),
        decreases entries.len() - i,
    {
        let ghost all = entry_views(entries@);
        assert(all.take(i + 1).drop_last() == all.take(i as int));
        assert(all.take(i + 1).last() == entries@[i as int]@);
        let name = chars_of(entries[i].name.as_str());
        let hidden = name.len() > 0 && name[0] == '.';
        if entries[i].is_dir == dirs && !hidden {
            let ghost before = views(names@);
            names.push(name);
            assert(views(names@) =~= before.push(name@));
        }
        i += 1;
    }
    assert(entry_views(entries@).take(entries.len() as int) == entry_views(entries@));
    names
}

/// A piece of a path as a listing's heading shows it: percent-decoded where
/// that can be done, as it is where it cannot.
pub open spec fn display_segment(segment: Seq<char>) -> Seq<char> {
    if segment.len() == 0 {
        segment
    } else {
        match percent_decoded(segment) {
            Some(d) => d,
            None => segment,
        }
    }
}

/// The pieces of a path as a listing's heading shows them.
pub open spec fn display_segments(segments: Seq<Seq<char>>) -> Seq<Seq<char>> {
    Seq::new(segments.len(), |i: int| display_segment(segments[i]))
}

/// A path as a listing's heading shows it: each piece between slashes
/// percent-decoded by itself.
pub open spec fn display_path(url_path: Seq<char>) -> Seq<char> {
    if url_path == "/"@ {
        "/"@
    } else {
        join(display_segments(split(url_path, '/')), "/"@)
    }
}

fn decode_for_display(url_path: &[char]) -> (r: Vec<char>)
    ensures
        r@ == display_path(url_path@),
{
    if is_text(url_path, "/") {
        return chars_of("/");
    }
    let segments = split_chars(url_path, '/');
    let mut shown: Vec<Vec<char>> = Vec::new();
    let mut i: usize = 0;
    while i < segments.len()
        invariant
            i <= segments.len(),
            shown.len() == i,
            forall|j: int| 0 <= j < i ==> (#[trigger] shown@[j])@ == display_segment(segments@[j]@),
        decreases segments.len() - i,
    {
        let segment = &segments[i];
        if segment.len() == 0 {
            shown.push(Vec::new());
        } else {
            let text = string_of(segment.as_slice());
            match percent_decode(text.as_str()) {
                Some(d) => shown.push(chars_of(d.as_str())),
                None => shown.push(to_vec(segment.as_slice())),
            }
        }
        i += 1;
    }
    assert(views(shown@) =~= display_segments(views(segments@)));
    let sep = chars_of("/");
    join_chars(&shown, sep.as_slice())
}

/// The address of the directory above `url_path`.
pub open spec fn parent_url(url_path: Seq<char>) -> Seq<char> {
    let trimmed = trim_end(url_path, '/');
    let pos = last_index_of(trimmed, '/');
    if pos <= 0 {
        "/"@
    } else {
        trimmed.subrange(0, pos) + "/"@
    }
}

fn parent_of(url_path: &[char]) -> (r: Vec<char>)
    ensures
        r@ == parent_url(url_path@),
{
    let n = trimmed_end_len(url_path, '/');
    let trimmed = &url_path[0..n];
    assert(trimmed@ == url_path@.take(n as int));
    proof {
        lemma_last_index_of(trimmed@, '/');
    }
    match rfind_char(trimmed, '/') {
        Some(pos) => {
            if pos == 0 {
                chars_of("/")
            } else {
                let mut out = to_vec(&trimmed[0..pos]);
                push_str(&mut out, "/");
                out
            }
        },
        None => chars_of("/"),
    }
}

/// The address that a listing of `url_path` links an entry to: the path
/// without the slashes at its end, a slash, the name percent-encoded, and a
/// slash more for a directory.
pub open spec fn entry_url(url_path: Seq<char>, name: Seq<char>, dir: bool) -> Seq<char> {
    trim_end(url_path, '/') + "/"@ + percent_encoded(name) + if dir {
        "/"@
    } else {
        Seq::empty()
    }
}

/// The page of a listing up to the path in its title.
pub const LISTING_HEAD: &'static str =
    "<!DOCTYPE html>\n<html>\n<head>\n<meta charset=\"utf-8\">\n<title>Index of ";

/// The page of a listing between the path in its title and the path in its
/// heading.
pub const LISTING_STYLE: &'static str =
    "</title>\n<style>\nbody { font-family: monospace; margin: 20px; }\nh1 { color: #333; }\nul { list-style-type: none; padding-left: 0; }\nli { padding: 5px 0; }\na { text-decoration: none; color: #0066cc; }\na:hover { text-decoration: underline; }\n.dir::before { content: '\u{1F4C1}'; }\n.file::before { content: '\u{1F4C4}'; }\n</style>\n</head>\n<body>\n<h1>Index of ";

/// The page of a listing between its heading and its entries.
pub const LISTING_OPEN: &'static str = "</h1>\n<ul>\n";

/// The page of a listing behind its entries.
pub const LISTING_CLOSE: &'static str = "</ul>\n</body>\n</html>";

/// The line of a listing that stands for a directory that could not be read.
pub const LISTING_FAILED: &'static str = "<li>Error reading directory</li>\n";

/// The line of a listing for one entry.
pub open spec fn listing_item(url_path: Seq<char>, name: Seq<char>, dir: bool) -> Seq<char> {
    if dir {
        "<li class=\"dir\"><a href=\""@ + html_escaped(entry_url(url_path, name, true)) + "\">"@
            + html_escaped(name) + "/</a></li>\n"@
    } else {
        "<li class=\"file\"><a href=\""@ + html_escaped(entry_url(url_path, name, false)) + "\">"@
            + html_escaped(name) + "</a></li>\n"@
    }
}

/// The lines of a listing for the given names, in their order.
pub open spec fn listing_items(url_path: Seq<char>, names: Seq<Seq<char>>, dir: bool) -> Seq<char>
    decreases names.len(),
{
    if names.len() == 0 {
        Seq::empty()
    } else {
        listing_items(url_path, names.drop_last(), dir) + listing_item(url_path, names.last(), dir)
    }
}

fn push_items(out: &mut Vec<char>, url_path: &[char], names: &Vec<Vec<char>>, dir: bool)
    ensures
        final(out)@ == old(out)@ + listing_items(url_path@, views(names@), dir),
{
    let n = trimmed_end_len(url_path, '/');
    let base = &url_path[0..n];
    assert(base@ == trim_end(url_path@, '/'));
    let mut i: usize = 0;
    while i < names.len()
        invariant
            i <= names.len(),
            base@ == trim_end(url_path@, '/'),
            out@ == old(out)@ + listing_items(url_path@, views(names@).take(i as int), dir),
        decreases names.len() - i,
    {
        let ghost before = out@;
        let name = &names[i];
        let text = string_of(name.as_slice());
        let encoded = percent_encode(text.as_str());
        let mut url = to_vec(base);
        push_str(&mut url, "/");
        push_str(&mut url, encoded.as_str());
        if dir {
            push_str(&mut url, "/");
        }
        assert(url@ =~= entry_url(url_path@, name@, dir));
        if dir {
            push_str(out, "<li class=\"dir\"><a href=\"");
        } else {
            push_str(out, "<li class=\"file\"><a href=\"");
        }
        push_html_escaped(out, url.as_slice());
        push_str(out, "\">");
        push_html_escaped(out, name.as_slice());
        if dir {
            push_str(out, "/</a></li>\n");
        } else {
            push_str(out, "</a></li>\n");
        }
        assert(out@ =~= before + listing_item(url_path@, name@, dir));
        assert(views(names@).take(i + 1).drop_last() == views(names@).take(i as int));
        assert(views(names@).take(i + 1).last() == name@);
        assert(out@ =~= old(out)@ + listing_items(url_path@, views(names@).take(i + 1), dir));
        i += 1;
    }
    assert(views(names@).take(names.len() as int) == views(names@));
}

/// The link of a listing to the directory above; a listing of `/` has none.
pub open spec fn listing_parent_item(url_path: Seq<char>) -> Seq<char> {
    if url_path == "/"@ {
        Seq::empty()
    } else {
        "<li><a href=\""@ + html_escaped(parent_url(url_path)) + "\">../</a></li>\n"@
    }
}

/// The lines of a listing for the entries of a directory: the directories
/// that are not hidden, in order, then the files that are not hidden, in
/// order; one line that says so where the directory could not be read.
pub open spec fn listing_entries(url_path: Seq<char>, entries: Option<Seq<(Seq<char>, bool)>>) -> Seq<
    char,
> {
    match entries {
        Some(e) => listing_items(url_path, sorted_names(shown_names(e, true)), true)
            + listing_items(url_path, sorted_names(shown_names(e, false)), false),
        None => LISTING_FAILED@,
    }
}

/// The page that lists a directory.
pub open spec fn listing_page(url_path: Seq<char>, entries: Option<Seq<(Seq<char>, bool)>>) -> Seq<
    char,
> {
    LISTING_HEAD@ + html_escaped(display_path(url_path)) + LISTING_STYLE@ + html_escaped(
        display_path(url_path),
    ) + LISTING_OPEN@ + listing_parent_item(url_path) + listing_entries(url_path, entries)
        + LISTING_CLOSE@
}

/// The entries as a listing's contract speaks of them.
pub open spec fn listed(entries: Option<&Vec<DirEntry>>) -> Option<Seq<(Seq<char>, bool)>> {
    match entries {
        Some(e) => Some(entry_views(e@)),
        None => None,
    }
}

/// The page that lists the directory at `url_path`, as a 200 response in
/// HTML. `entries` holds what the directory contains, or `None` where it could
/// not be read.
pub fn create_directory_listing(url_path: &str, entries: Option<&Vec<DirEntry>>) -> (r:
    HttpResponse)
    ensures
        r@ == (ResponseView {
            status: 200,
            content_type: Some("text/html; charset=utf-8"@),
            headers: Seq::empty(),
            body: encode_utf8(listing_page(url_path@, listed(entries))),
        }),
{
    let path = chars_of(url_path);
    let shown = decode_for_display(path.as_slice());
    let mut out: Vec<char> = Vec::new();
    push_str(&mut out, LISTING_HEAD);
    push_html_escaped(&mut out, shown.as_slice());
    push_str(&mut out, LISTING_STYLE);
    push_html_escaped(&mut out, shown.as_slice());
    push_str(&mut out, LISTING_OPEN);
    if !is_text(path.as_slice(), "/") {
        let parent = parent_of(path.as_slice());
        push_str(&mut out, "<li><a href=\"");
        push_html_escaped(&mut out, parent.as_slice());
        push_str(&mut out, "\">../</a></li>\n");
    }
    let ghost upto_parent = out@;
    assert(upto_parent =~= LISTING_HEAD@ + html_escaped(display_path(url_path@)) + LISTING_STYLE@
        + html_escaped(display_path(url_path@)) + LISTING_OPEN@ + listing_parent_item(url_path@));
    match entries {
        Some(e) => {
            let dirs = sort_names(&collect_shown(e, true));
            let files = sort_names(&collect_shown(e, false));
            push_items(&mut out, path.as_slice(), &dirs, true);
            push_items(&mut out, path.as_slice(), &files, false);
        },
        None => {
            push_str(&mut out, LISTING_FAILED);
        },
    }
    assert(out@ =~= upto_parent + listing_entries(url_path@, listed(entries)));
    push_str(&mut out, LISTING_CLOSE);
    assert(out@ =~= listing_page(url_path@, listed(entries)));
    let html = string_of(out.as_slice());
    HttpResponse::from_string(html.as_str()).with_content_type("text/html; charset=utf-8")
}

} // verus!

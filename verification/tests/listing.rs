use mclocks::web::file::get_content_type;
use mclocks::web::listing::{create_directory_listing, DirEntry};

fn entry(name: &str, is_dir: bool) -> DirEntry {
    DirEntry { name: name.to_string(), is_dir }
}

fn body(r: &mclocks::web::common::HttpResponse) -> String {
    String::from_utf8(r.body.clone()).unwrap()
}

#[test]
fn listing_orders_directories_before_files() {
    let entries = vec![entry("b.txt", false), entry("a.txt", false), entry("sub", true)];
    let r = create_directory_listing("/", Some(&entries));
    assert_eq!(r.status, 200);
    assert_eq!(r.content_type.as_deref(), Some("text/html; charset=utf-8"));
    let html = body(&r);
    let sub = html.find("<li class=\"dir\"><a href=\"/sub/\">sub/</a></li>").unwrap();
    let a = html.find("<li class=\"file\"><a href=\"/a.txt\">a.txt</a></li>").unwrap();
    let b = html.find("<li class=\"file\"><a href=\"/b.txt\">b.txt</a></li>").unwrap();
    assert!(sub < a && a < b);
    assert!(!html.contains("../"));
    assert!(html.contains("<title>Index of /</title>"));
    assert!(html.contains("<h1>Index of /</h1>"));
}

#[test]
fn listing_of_subdirectory_links_to_parent() {
    let entries = vec![entry("x.md", false)];
    let html = body(&create_directory_listing("/sub/", Some(&entries)));
    assert!(html.contains("<li><a href=\"/\">../</a></li>"));
    assert!(html.contains("<li class=\"file\"><a href=\"/sub/x.md\">x.md</a></li>"));
    let deeper = body(&create_directory_listing("/a/b/c", Some(&Vec::new())));
    assert!(deeper.contains("<li><a href=\"/a/b/\">../</a></li>"));
    assert!(deeper.contains("<title>Index of /a/b/c</title>"));
}

#[test]
fn listing_whole_page() {
    let entries = vec![entry("f", false), entry("d", true)];
    let html = body(&create_directory_listing("/", Some(&entries)));
    let expected = "<!DOCTYPE html>\n<html>\n<head>\n<meta charset=\"utf-8\">\n<title>Index of /</title>\n<style>\nbody { font-family: monospace; margin: 20px; }\nh1 { color: #333; }\nul { list-style-type: none; padding-left: 0; }\nli { padding: 5px 0; }\na { text-decoration: none; color: #0066cc; }\na:hover { text-decoration: underline; }\n.dir::before { content: '\u{1F4C1}'; }\n.file::before { content: '\u{1F4C4}'; }\n</style>\n</head>\n<body>\n<h1>Index of /</h1>\n<ul>\n<li class=\"dir\"><a href=\"/d/\">d/</a></li>\n<li class=\"file\"><a href=\"/f\">f</a></li>\n</ul>\n</body>\n</html>";
    assert_eq!(html, expected);
}

#[test]
fn listing_hides_dotfiles() {
    let entries = vec![entry(".git", true), entry(".env", false), entry("shown", false)];
    let html = body(&create_directory_listing("/", Some(&entries)));
    assert!(!html.contains(".git"));
    assert!(!html.contains(".env"));
    assert!(html.contains(">shown</a>"));
}

#[test]
fn listing_encodes_links_and_escapes_labels() {
    let entries = vec![entry("a b&c.txt", false), entry("d\u{e9}", true)];
    let html = body(&create_directory_listing("/x%20y", Some(&entries)));
    assert!(html.contains("<title>Index of /x y</title>"));
    assert!(html.contains("<li class=\"file\"><a href=\"/x%20y/a%20b%26c.txt\">a b&amp;c.txt</a></li>"));
    assert!(html.contains("<li class=\"dir\"><a href=\"/x%20y/d%C3%A9/\">d\u{e9}/</a></li>"));
}

#[test]
fn listing_sorts_by_code_point() {
    let entries = vec![entry("b", false), entry("B", false), entry("a10", false), entry("a1", false), entry("a", false), entry("\u{e9}", false), entry("z", false)];
    let html = body(&create_directory_listing("/", Some(&entries)));
    let mut expected: Vec<String> = entries.iter().map(|e| e.name.clone()).collect();
    expected.sort();
    let mut last = 0;
    for name in expected {
        let at = html.find(&format!(">{}</a>", name)).unwrap();
        assert!(at > last, "{}", name);
        last = at;
    }
}

#[test]
fn listing_of_unreadable_directory() {
    let html = body(&create_directory_listing("/gone", None));
    assert!(html.contains("<li>Error reading directory</li>\n</ul>"));
}

#[test]
fn listing_heading_keeps_undecodable_segment() {
    let html = body(&create_directory_listing("/a%FFb/", Some(&Vec::new())));
    assert!(html.contains("<title>Index of /a%FFb/</title>"));
}

#[test]
fn content_types_by_extension() {
    assert_eq!(get_content_type("index.html"), "text/html");
    assert_eq!(get_content_type("/srv/www/site.css"), "text/css");
    assert_eq!(get_content_type("a/b/app.js"), "application/javascript");
    assert_eq!(get_content_type("data.json"), "application/json");
    assert_eq!(get_content_type("README.md"), "text/markdown");
    assert_eq!(get_content_type("x.png"), "image/png");
    assert_eq!(get_content_type("x.jpg"), "image/jpeg");
    assert_eq!(get_content_type("x.jpeg"), "image/jpeg");
    assert_eq!(get_content_type("x.gif"), "image/gif");
    assert_eq!(get_content_type("x.svg"), "image/svg+xml");
    assert_eq!(get_content_type("x.ico"), "image/x-icon");
    assert_eq!(get_content_type("notes.txt"), "text/plain");
    assert_eq!(get_content_type("archive.tar.gz"), "application/octet-stream");
    assert_eq!(get_content_type("Makefile"), "application/octet-stream");
    assert_eq!(get_content_type(".html"), "application/octet-stream");
    assert_eq!(get_content_type("dir.html/file"), "application/octet-stream");
    assert_eq!(get_content_type("X.HTML"), "application/octet-stream");
    assert_eq!(get_content_type("a.b.html"), "text/html");
    assert_eq!(get_content_type(""), "application/octet-stream");
}

#[test]
fn extension_is_read_as_paths_have_it() {
    let table = [
        ("html", "text/html"),
        ("css", "text/css"),
        ("js", "application/javascript"),
        ("json", "application/json"),
        ("md", "text/markdown"),
        ("png", "image/png"),
        ("jpg", "image/jpeg"),
        ("jpeg", "image/jpeg"),
        ("gif", "image/gif"),
        ("svg", "image/svg+xml"),
        ("ico", "image/x-icon"),
        ("txt", "text/plain"),
    ];
    for path in [
        "a.html", "/x/y/a.b.css", ".js", "..", "a.", "a..html", ".a.html", "dir.md/file", "dir.md/.txt",
        "dir.md/a.txt", "/", "", "noext", "a.HTML", "a.html ", "x/..", "x/.../y.png", "....gif", "a.tar.gz",
        "weird.json.", "/root/.config/app.ico", "caf\u{e9}.svg", "a.jpeg", "b.jpg",
    ] {
        let extension = std::path::Path::new(path).extension().and_then(|e| e.to_str());
        let expected = table
            .iter()
            .find(|(e, _)| Some(*e) == extension)
            .map(|(_, t)| *t)
            .unwrap_or("application/octet-stream");
        assert_eq!(get_content_type(path), expected, "{:?}", path);
    }
}

use mclocks::text::{
    chars_of, chars_eq, find_char, has_char, has_prefix, has_run, html_escape, join_chars,
    leading_run_len, parse_number, push_decimal, replace_chars, rfind_char, split_chars, string_of,
    trimmed_end_len, utf8_text,
};

fn c(s: &str) -> Vec<char> {
    s.chars().collect()
}

#[test]
fn strings_and_characters() {
    assert_eq!(chars_of("a\u{e9}\u{1F4C1}"), vec!['a', '\u{e9}', '\u{1F4C1}']);
    assert_eq!(string_of(&['x', '\u{e9}']), "x\u{e9}");
    assert_eq!(string_of(&[]), "");
    assert!(chars_eq(&c("abc"), &c("abc")));
    assert!(!chars_eq(&c("abc"), &c("abd")));
    assert!(!chars_eq(&c("abc"), &c("ab")));
}

#[test]
fn searching() {
    assert_eq!(find_char(&c("a?b?c"), '?'), 1);
    assert_eq!(find_char(&c("abc"), '?'), 3);
    assert_eq!(find_char(&c(""), '?'), 0);
    assert_eq!(rfind_char(&c("a/b/c"), '/'), Some(3));
    assert_eq!(rfind_char(&c("abc"), '/'), None);
    assert!(has_char(&c("a:b"), ':'));
    assert!(!has_char(&c("ab"), ':'));
    assert!(has_prefix(&c("/status/1"), &c("/status/")));
    assert!(has_prefix(&c("x"), &c("")));
    assert!(!has_prefix(&c("/stat"), &c("/status/")));
    assert!(has_run(&c("a..b"), &c("..")));
    assert!(has_run(&c("ab.."), &c("..")));
    assert!(has_run(&c("ab"), &c("")));
    assert!(!has_run(&c("a.b."), &c("..")));
    assert!(!has_run(&c("."), &c("..")));
}

#[test]
fn trimming() {
    assert_eq!(trimmed_end_len(&c("/a/b///"), '/'), 4);
    assert_eq!(trimmed_end_len(&c("///"), '/'), 0);
    assert_eq!(trimmed_end_len(&c("abc"), '/'), 3);
    assert_eq!(leading_run_len(&c("//a/"), '/'), 2);
    assert_eq!(leading_run_len(&c("a/"), '/'), 0);
    assert_eq!(leading_run_len(&c("//"), '/'), 2);
}

#[test]
fn splitting_and_joining() {
    assert_eq!(split_chars(&c("a/b//c/"), '/'), vec![c("a"), c("b"), c(""), c("c"), c("")]);
    assert_eq!(split_chars(&c(""), '/'), vec![c("")]);
    assert_eq!(split_chars(&c("abc"), '/'), vec![c("abc")]);
    assert_eq!(split_chars(&c("/"), '/'), vec![c(""), c("")]);
    assert_eq!(join_chars(&vec![c("a"), c(""), c("b")], &c(", ")), c("a, , b"));
    assert_eq!(join_chars(&vec![c("a")], &c("/")), c("a"));
    assert_eq!(join_chars(&Vec::new(), &c("/")), c(""));
    for s in ["", "/", "a/b", "//x//", "no separator"] {
        let parts = split_chars(&c(s), '/');
        let expected: Vec<Vec<char>> = s.split('/').map(c).collect();
        assert_eq!(parts, expected);
        assert_eq!(join_chars(&parts, &c("/")), c(s));
    }
}

#[test]
fn escaping_html() {
    assert_eq!(html_escape("<a href=\"x\">T&J's</a>"), "&lt;a href=&quot;x&quot;&gt;T&amp;J&#x27;s&lt;/a&gt;");
    assert_eq!(html_escape("plain \u{e9}"), "plain \u{e9}");
    assert_eq!(html_escape(""), "");
    assert_eq!(html_escape("&amp;"), "&amp;amp;");
}

#[test]
fn decimal_numbers() {
    let show = |n: u64| {
        let mut out = c("n=");
        push_decimal(&mut out, n);
        string_of(&out)
    };
    assert_eq!(show(0), "n=0");
    assert_eq!(show(7), "n=7");
    assert_eq!(show(10), "n=10");
    assert_eq!(show(599), "n=599");
    assert_eq!(show(u64::MAX), "n=18446744073709551615");
}

#[test]
fn parsing_numbers() {
    assert_eq!(parse_number(&c("0"), 10), Some(0));
    assert_eq!(parse_number(&c("10"), 10), Some(10));
    assert_eq!(parse_number(&c("11"), 10), None);
    assert_eq!(parse_number(&c("+10"), 10), Some(10));
    assert_eq!(parse_number(&c("0010"), 10), Some(10));
    assert_eq!(parse_number(&c(""), 10), None);
    assert_eq!(parse_number(&c("+"), 10), None);
    assert_eq!(parse_number(&c("++1"), 10), None);
    assert_eq!(parse_number(&c("-1"), 10), None);
    assert_eq!(parse_number(&c("1 "), 10), None);
    assert_eq!(parse_number(&c("1a"), 10), None);
    assert_eq!(parse_number(&c("\u{663}"), 10), None);
    assert_eq!(parse_number(&c("18446744073709551615"), u64::MAX), Some(u64::MAX));
    assert_eq!(parse_number(&c("18446744073709551616"), u64::MAX), None);
    assert_eq!(parse_number(&c("99999999999999999999999999"), u64::MAX), None);
    assert_eq!(parse_number(&c("5"), 0), None);
    assert_eq!(parse_number(&c("0"), 0), Some(0));
    for s in ["0", "42", "+42", "042", "", "+", "-3", "4x", "65535", "65536", "600"] {
        assert_eq!(parse_number(&c(s), u16::MAX as u64), s.parse::<u16>().ok().map(|n| n as u64), "{}", s);
    }
}

#[test]
fn replacing() {
    let replace = |s: &str, pat: &str, rep: &str| string_of(&replace_chars(&c(s), &c(pat), &c(rep)));
    for (s, pat, rep) in [
        ("{file}:{line}", "{file}", "/a/b"),
        ("aaa", "aa", "b"),
        ("aaaa", "aa", "b"),
        ("abc", "x", "y"),
        ("", "x", "y"),
        ("xxx", "x", ""),
        ("ab{fil", "{file}", "z"),
        ("{file}{file}", "{file}", "{file}{file}"),
        ("a{{file}}", "{file}", "Q"),
    ] {
        assert_eq!(replace(s, pat, rep), s.replace(pat, rep), "{} {} {}", s, pat, rep);
    }
    assert_eq!(replace("abc", "", "x"), "abc");
}

#[test]
fn reading_utf8() {
    assert_eq!(utf8_text("caf\u{e9} \u{1F4C1}".as_bytes()), Some("caf\u{e9} \u{1F4C1}".to_string()));
    assert_eq!(utf8_text(b""), Some(String::new()));
    assert_eq!(utf8_text(&[0xff]), None);
    assert_eq!(utf8_text(&[0xc3]), None);
    assert_eq!(utf8_text(&[0xc0, 0x80]), None);
    assert_eq!(utf8_text(&[0xed, 0xa0, 0x80]), None);
}

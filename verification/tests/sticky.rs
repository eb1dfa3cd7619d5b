use mclocks::sticky::{StickyInitContent, StickyInitStore};

fn content(text: &str, content_type: Option<&str>) -> StickyInitContent {
    StickyInitContent { text: text.to_string(), content_type: content_type.map(|s| s.to_string()) }
}

#[test]
fn content_is_taken_once() {
    let mut store = StickyInitStore::new();
    store.insert("sticky-1".to_string(), content("hello", None));
    store.insert("sticky-2".to_string(), content("", Some("image")));
    let first = store.take("sticky-1");
    assert_eq!(first.text, "hello");
    assert_eq!(first.content_type, None);
    let again = store.take("sticky-1");
    assert_eq!(again.text, "");
    assert_eq!(again.content_type, None);
    let second = store.take("sticky-2");
    assert_eq!(second.content_type.as_deref(), Some("image"));
}

#[test]
fn later_content_replaces_earlier() {
    let mut store = StickyInitStore::default();
    store.insert("w".to_string(), content("one", None));
    store.insert("x".to_string(), content("other", None));
    store.insert("w".to_string(), content("two", Some("text")));
    let taken = store.take("w");
    assert_eq!(taken.text, "two");
    assert_eq!(taken.content_type.as_deref(), Some("text"));
    assert_eq!(store.take("w").text, "");
    assert_eq!(store.take("x").text, "other");
}

#[test]
fn unknown_window_gets_empty_content() {
    let mut store = StickyInitStore::new();
    let taken = store.take("nobody");
    assert_eq!(taken.text, "");
    assert!(taken.content_type.is_none());
}

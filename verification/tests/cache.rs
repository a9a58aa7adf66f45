use render::cache::{HtmlCache, MarkdownInfo};

fn info(title: &str, html_content: &str) -> MarkdownInfo {
    MarkdownInfo { title: title.to_string(), html_content: html_content.to_string() }
}

#[test]
fn new_cache_is_empty() {
    let cache = HtmlCache::new();
    assert!(cache.is_empty());
    assert_eq!(cache.len(), 0);
    assert!(cache.get("a").is_none());
    assert!(cache.entry_at(0).is_none());
}

#[test]
fn insert_then_get() {
    let mut cache = HtmlCache::new();
    cache.insert("a".to_string(), info("Alpha", "<p>a</p>"));
    assert!(!cache.is_empty());
    assert_eq!(cache.len(), 1);
    assert_eq!(cache.get("a"), Some(&info("Alpha", "<p>a</p>")));
    assert_eq!(cache.get("b"), None);
    assert_eq!(cache.get("A"), None);
    assert_eq!(cache.get(""), None);
}

#[test]
fn insert_overwrites_by_identifier() {
    let mut cache = HtmlCache::new();
    cache.insert("a".to_string(), info("First", "1"));
    cache.insert("b".to_string(), info("Other", "2"));
    cache.insert("a".to_string(), info("Second", "3"));
    assert_eq!(cache.len(), 2);
    assert_eq!(cache.get("a"), Some(&info("Second", "3")));
    assert_eq!(cache.get("b"), Some(&info("Other", "2")));
}

#[test]
fn entries_come_in_order_of_first_arrival() {
    let mut cache = HtmlCache::new();
    cache.insert("a".to_string(), info("First", "1"));
    cache.insert("b".to_string(), info("Other", "2"));
    cache.insert("a".to_string(), info("Second", "3"));
    let first = cache.entry_at(0).unwrap();
    let second = cache.entry_at(1).unwrap();
    assert_eq!((first.0.as_str(), first.1), ("a", &info("Second", "3")));
    assert_eq!((second.0.as_str(), second.1), ("b", &info("Other", "2")));
    assert!(cache.entry_at(2).is_none());
    assert!(cache.entry_at(usize::MAX).is_none());
}

#[test]
fn empty_identifier_is_an_identifier() {
    let mut cache = HtmlCache::new();
    cache.insert(String::new(), info("", ""));
    assert_eq!(cache.len(), 1);
    assert_eq!(cache.get(""), Some(&info("", "")));
}

use kg_explorer::cache::{predicate_analysis_key, usable_payload, CacheEntry, MemoryCache};

#[test]
fn cache_round_trip() {
    let mut c = MemoryCache::new();
    c.put("k", 5, vec![1, 2, 3]);
    let e = c.get("k").unwrap();
    assert_eq!(e.version, 5);
    assert_eq!(e.payload, vec![1, 2, 3]);
    assert!(c.get("other").is_none());
}

#[test]
fn put_replaces_what_a_key_held() {
    let mut c = MemoryCache::new();
    c.put("a", 1, vec![1]);
    c.put("b", 2, vec![2]);
    c.put("a", 3, vec![3]);
    assert_eq!(c.get("a").unwrap().version, 3);
    assert_eq!(c.get("a").unwrap().payload, vec![3]);
    assert_eq!(c.get("b").unwrap().payload, vec![2]);
}

#[test]
fn stale_entries_are_not_handed_out() {
    let mut c = MemoryCache::new();
    c.put("k", 5, vec![9, 9]);
    assert_eq!(c.get_fresh("k", 5), Some(vec![9, 9]));
    assert_eq!(c.get_fresh("k", 6), None);
    assert_eq!(c.get_fresh("k", 4), None);
    assert_eq!(c.get_fresh("none", 5), None);
    assert!(CacheEntry { version: 5, payload: Vec::new() }.is_fresh(5));
    assert!(!CacheEntry { version: 5, payload: Vec::new() }.is_fresh(6));
    assert_eq!(usable_payload(Some(CacheEntry { version: 2, payload: vec![7] }), 2), Some(vec![7]));
    assert_eq!(usable_payload(Some(CacheEntry { version: 2, payload: vec![7] }), 3), None);
    assert_eq!(usable_payload(None, 0), None);
}

#[test]
fn analysis_key_names_a_file() {
    assert_eq!(
        predicate_analysis_key("books", "<http://schema.org/Book>"),
        "./data/books/stat_anal/http_\\\\schema.org\\Book"
    );
}

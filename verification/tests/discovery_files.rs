use rjest::discovery::{has_valid_extension, is_hidden, is_node_modules, glob_match, DiscoveryCache};

#[test]
fn test_is_hidden() {
    // Would need to construct DirEntry for proper testing
}

#[test]
fn test_has_valid_extension() {
    let exts = vec!["ts".to_string(), "tsx".to_string(), "js".to_string()];
    assert!(has_valid_extension("foo.ts", &exts));
    assert!(has_valid_extension("foo.tsx", &exts));
    assert!(!has_valid_extension("foo.rs", &exts));
}

#[test]
fn hidden_and_node_modules_names() {
    assert!(is_hidden(".git"));
    assert!(!is_hidden("src"));
    assert!(is_node_modules("node_modules"));
    assert!(!is_node_modules("node_modules2"));
}

#[test]
fn extension_edge_cases() {
    let exts = vec!["".to_string(), "ts".to_string()];
    assert!(has_valid_extension("foo.", &exts));
    assert!(!has_valid_extension("foo", &exts));
    assert!(!has_valid_extension(".ts", &exts));
}

#[test]
fn simple_glob() {
    assert!(glob_match("**/*.test.js", "a/b/c.test.js"));
    assert!(glob_match("src/?.js", "src/a.js"));
    assert!(!glob_match("src/*.js", "src/a/b.js"));
    assert!(!glob_match("(", "anything"));
}

#[test]
fn cache_set_get_invalidate() {
    let mut cache = DiscoveryCache::new();
    assert!(cache.get("/p", 1, 0).is_none());
    cache.set("/p".to_string(), vec!["/p/a.test.js".to_string()], 1, 100);
    assert_eq!(cache.get("/p/", 1, 200), Some(vec!["/p/a.test.js".to_string()]));
    assert!(cache.get("/p", 2, 200).is_none());
    assert!(cache.get("/p", 1, 5100).is_none());
    assert!(cache.get("/p", 1, 5099).is_some());
    cache.set("/p".to_string(), vec![], 1, 300);
    assert_eq!(cache.get("/p", 1, 300), Some(vec![]));
    cache.invalidate("/p");
    assert!(cache.get("/p", 1, 300).is_none());
}

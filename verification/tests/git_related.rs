use rjest::git::find_related_test_files;

fn paths(v: &[&str]) -> Vec<String> {
    v.iter().map(|s| s.to_string()).collect()
}

#[test]
fn test_find_related_test_files() {
    let changed = paths(&["/project/src/utils.ts", "/project/src/helper.ts"]);
    let tests = paths(&[
        "/project/src/utils.test.ts",
        "/project/src/other.test.ts",
        "/project/src/__tests__/helper.test.ts",
    ]);
    let related = find_related_test_files(&changed, &tests);
    // utils.test.ts should match utils.ts
    assert!(related.contains(&"/project/src/utils.test.ts".to_string()));
}

#[test]
fn test_find_related_test_files_empty_inputs() {
    let changed: Vec<String> = vec![];
    let tests: Vec<String> = vec![];
    let related = find_related_test_files(&changed, &tests);
    assert!(related.is_empty());
}

#[test]
fn test_find_related_test_files_only_source_files() {
    let changed = paths(&["/project/src/utils.ts"]);
    let tests: Vec<String> = vec![];
    let related = find_related_test_files(&changed, &tests);
    assert!(related.is_empty());
}

#[test]
fn test_find_related_test_files_only_tests() {
    let changed: Vec<String> = vec![];
    let tests = paths(&["/project/src/utils.test.ts"]);
    let related = find_related_test_files(&changed, &tests);
    assert!(related.is_empty());
}

#[test]
fn related_files_are_sorted_and_deduplicated() {
    let changed = paths(&["/p/src/a.ts"]);
    let tests = paths(&["/p/src/b.test.ts", "/p/src/a.test.ts", "/p/src//a.test.ts", "/p/other/x.test.ts"]);
    let related = find_related_test_files(&changed, &tests);
    assert_eq!(related, paths(&["/p/src/a.test.ts", "/p/src/b.test.ts"]));
}

#[test]
fn related_by_tests_directory_and_self_change() {
    let changed = paths(&["/p/lib/util.js", "/p/z/self.test.js", "/p/readme.md"]);
    let tests = paths(&["/p/z/self.test.js", "/p/lib/__tests__/x.test.js", "/p/q/readme.test.js"]);
    let related = find_related_test_files(&changed, &tests);
    assert_eq!(related, paths(&["/p/lib/__tests__/x.test.js", "/p/z/self.test.js"]));
}

#[test]
fn related_sorts_by_components_not_text() {
    let changed = paths(&["/a/x.ts", "/a-b/y.ts"]);
    let tests = paths(&["/a-b/y.test.ts", "/a/x.test.ts"]);
    let related = find_related_test_files(&changed, &tests);
    // component order puts "/a/..." before "/a-b/..." although '-' < '/'
    assert_eq!(related, paths(&["/a/x.test.ts", "/a-b/y.test.ts"]));
}

use rjest::watch::{collect_source_changes, get_affected_tests, is_source_file, is_test_file};

fn paths(v: &[&str]) -> Vec<String> {
    v.iter().map(|s| s.to_string()).collect()
}

#[test]
fn source_and_test_file_names() {
    assert!(is_source_file("/a/b.ts"));
    assert!(is_source_file("/a/b.json"));
    assert!(!is_source_file("/a/b.md"));
    assert!(!is_source_file("/a/ts"));
    assert!(is_test_file("/a/b.test.ts"));
    assert!(is_test_file("/a/b.spec.js"));
    assert!(!is_test_file("/a/__tests__/b.ts"));
    assert!(!is_test_file("/a/b.ts"));
}

#[test]
fn changed_test_file_is_rerun() {
    let changed = paths(&["/p/a.test.ts"]);
    let tests = paths(&["/p/a.test.ts", "/q/b.test.ts"]);
    assert_eq!(get_affected_tests(&changed, &tests), paths(&["/p/a.test.ts"]));
}

#[test]
fn source_change_reruns_matching_and_sibling_tests() {
    let changed = paths(&["/p/src/util.ts"]);
    let tests = paths(&["/p/src/other.test.ts", "/p/lib/util.test.ts", "/q/none.test.ts"]);
    let mut got = get_affected_tests(&changed, &tests);
    got.sort();
    assert_eq!(got, paths(&["/p/lib/util.test.ts", "/p/src/other.test.ts"]));
}

#[test]
fn nothing_affected_runs_all() {
    let changed = paths(&["/p/x/zzz.ts"]);
    let tests = paths(&["/q/a.test.ts", "/r/b.test.ts"]);
    assert_eq!(get_affected_tests(&changed, &tests), tests);
}

#[test]
fn no_changes_run_nothing() {
    let changed: Vec<String> = vec![];
    let tests = paths(&["/q/a.test.ts"]);
    assert!(get_affected_tests(&changed, &tests).is_empty());
}

#[test]
fn source_changes_are_filtered_and_unique() {
    let events = paths(&["/p/a.ts", "/p/b.md", "/p//a.ts", "/p/c.json"]);
    assert_eq!(collect_source_changes(&events), paths(&["/p/a.ts", "/p/c.json"]));
}

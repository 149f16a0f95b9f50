use rjest::rjest_util::{glob_match, glob_match_outcome, glob_to_regex, is_safe_path};

#[test]
fn test_glob_match() {
    // Simple patterns using shared rjest_util::glob_match
    assert!(glob_match("**/*.test.ts", "src/utils.test.ts"));
    assert!(glob_match("**/*.test.ts", "src/foo/bar.test.ts"));
    assert!(glob_match("**/__tests__/**/*.ts", "src/__tests__/foo.ts"));
    assert!(!glob_match("**/*.test.ts", "src/utils.ts"));

    // Jest default patterns
    let jest_pattern = "**/?(*.)+(spec|test).[jt]s?(x)";
    assert!(glob_match(jest_pattern, "src/utils.test.js"));
    assert!(glob_match(jest_pattern, "src/utils.test.ts"));
    assert!(glob_match(jest_pattern, "src/utils.spec.js"));
    assert!(glob_match(jest_pattern, "src/utils.test.tsx"));
    assert!(glob_match(jest_pattern, "foo.test.js"));
}

#[test]
fn test_glob_match_simple() {
    assert!(glob_match("**/*.test.js", "foo.test.js"));
    assert!(glob_match("**/*.test.js", "src/foo.test.js"));
    assert!(glob_match("**/*.test.js", "deep/nested/src/foo.test.js"));
    assert!(!glob_match("**/*.test.js", "foo.spec.js"));
}

#[test]
fn test_glob_match_no_double_star() {
    assert!(glob_match("src/*.test.js", "src/foo.test.js"));
    assert!(!glob_match("src/*.test.js", "src/sub/bar.test.js"));
}

#[test]
fn test_glob_match_question_mark() {
    assert!(glob_match("src/?.test.js", "src/a.test.js"));
    assert!(!glob_match("src/?.test.js", "src/ab.test.js"));
}

#[test]
fn test_glob_match_patterns() {
    // Test file patterns
    assert!(glob_match("**/*.test.ts", "foo.test.ts"));
    assert!(glob_match("**/*.spec.ts", "foo.spec.ts"));
    assert!(glob_match("**/__tests__/**/*.ts", "__tests__/foo.test.ts"));

    // Non-matches
    assert!(!glob_match("**/*.test.ts", "foo.ts"));
    assert!(!glob_match("**/*.test.ts", "foo.test.js"));
}

fn s(v: Vec<char>) -> String {
    v.into_iter().collect()
}

#[test]
fn glob_translation_of_each_form() {
    assert_eq!(s(glob_to_regex("**/*.js")), ".*[^/]*\\.js");
    assert_eq!(s(glob_to_regex("a?b")), "a.b");
    assert_eq!(s(glob_to_regex("+(x)@(y)")), "(x)+(y)");
    assert_eq!(s(glob_to_regex("?(a)*(b)")), "(a)?(b)*");
    assert_eq!(s(glob_to_regex("@(a(b)c)")), "(a\\(b\\)c)");
    assert_eq!(s(glob_to_regex("@(*.js|x)")), "([^/]*\\.js|x)");
    assert_eq!(
        s(glob_to_regex("**/?(*.)+(spec|test).[jt]s?(x)")),
        ".*([^/]*\\.)?(spec|test)+\\.[jt]s(x)?"
    );
    assert_eq!(s(glob_to_regex("[ab]c")), "[ab]c");
    assert_eq!(s(glob_to_regex("[ab")), "[ab");
    assert_eq!(s(glob_to_regex("a{b}|c$")), "a\\{b\\}\\|c\\$");
}

#[test]
fn glob_outcome_falls_back_when_regex_fails() {
    assert!(glob_match_outcome(None, "src/a.spec.ts"));
    assert!(glob_match_outcome(None, "src/__tests__/a.ts"));
    assert!(!glob_match_outcome(None, "src/a.ts"));
    assert!(!glob_match_outcome(Some(false), "src/a.test.ts"));
    assert!(glob_match_outcome(Some(true), "src/a.ts"));
}

#[test]
fn safe_path_is_component_prefix() {
    assert!(is_safe_path(Some("/base/src/main.ts"), Some("/base")));
    assert!(is_safe_path(Some("/base"), Some("/base")));
    assert!(!is_safe_path(Some("/base2/x"), Some("/base")));
    assert!(!is_safe_path(Some("/etc/passwd"), Some("/base")));
    assert!(!is_safe_path(None, Some("/base")));
}

fn canonical(p: &std::path::Path) -> Option<String> {
    p.canonicalize().ok().map(|c| c.to_string_lossy().into_owned())
}

#[test]
fn test_is_safe_path() {
    // A temp directory holding src/main.ts
    let temp_dir = tempfile::TempDir::new().unwrap();
    let base = temp_dir.path();
    let src = tempfile::Builder::new().prefix("src").rand_bytes(0).tempdir_in(base).unwrap();
    let file = tempfile::Builder::new().prefix("main").suffix(".ts").rand_bytes(0).tempfile_in(src.path()).unwrap();
    let safe_path = base.join("src/main.ts");
    assert_eq!(file.path(), safe_path.as_path());

    let base_c = canonical(base);
    assert!(is_safe_path(canonical(&safe_path).as_deref(), base_c.as_deref()));
    assert!(is_safe_path(canonical(&base.join("src")).as_deref(), base_c.as_deref()));

    let unsafe_path = std::path::Path::new("/etc/passwd");
    assert!(!is_safe_path(canonical(unsafe_path).as_deref(), base_c.as_deref()));
}

#[test]
fn extglob_groups_follow_their_documented_meaning() {
    // @(x|y) = one of x or y
    assert!(glob_match("src/@(a|b).js", "src/a.js"));
    assert!(glob_match("src/@(a|b).js", "src/b.js"));
    assert!(!glob_match("src/@(a|b).js", "src/c.js"));
    // +(x) = one or more of x
    assert!(glob_match("src/+(a).js", "src/aa.js"));
    assert!(!glob_match("src/+(a).js", "src/.js"));
    // *(x) = zero or more of x
    assert!(glob_match("src/x*(a).js", "src/x.js"));
    assert!(glob_match("src/x*(a).js", "src/xaaa.js"));
    assert!(!glob_match("src/x*(a).js", "src/xb.js"));
    // ?(x) = zero or one of x
    assert!(glob_match("src/x?(a).js", "src/x.js"));
    assert!(!glob_match("src/x?(a).js", "src/xaa.js"));
    // Jest's default pattern no longer leans on the fallback
    assert!(!glob_match("**/?(*.)+(spec|test).[jt]s?(x)", "src/__tests__/helper.ts"));
}

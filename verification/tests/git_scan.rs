use rjest::git::{
    diff_paths, get_changed_files, origin_head_branch_exec, status_output_readable_exec, status_paths,
    ChangedFilesScan, GitAction, GitOutcome, ScanPhase,
};
use std::path::Path;

/// Answers a scan's questions about the file system from the real file
/// system; git is never started here.
fn drive(start: (ChangedFilesScan, GitAction)) -> Result<Vec<String>, String> {
    let (mut scan, mut action) = start;
    loop {
        action = match action {
            GitAction::Canonicalize(p) => {
                let c = Path::new(&p).canonicalize().ok().map(|c| c.to_string_lossy().into_owned());
                scan.resolved(c)
            }
            GitAction::Exists(p) => scan.found(Path::new(&p).exists()),
            GitAction::IsDir(p) => scan.found(Path::new(&p).is_dir()),
            GitAction::Git { .. } => scan.ran(GitOutcome::NotRun),
            GitAction::Done(r) => return r,
        };
    }
}

#[test]
fn test_get_changed_files_nonexistent_directory() {
    let result = drive(get_changed_files("/tmp/this-does-not-exist-12345"));
    // Non-existent directory should return empty vec (not an error)
    assert!(result.unwrap().is_empty());
}

#[test]
fn test_get_changed_files_non_git_directory() {
    let temp_dir = tempfile::TempDir::new().unwrap();
    let result = drive(get_changed_files(temp_dir.path().to_str().unwrap()));
    // Non-git directory should return empty vec
    assert!(result.unwrap().is_empty());
}

fn out(success: bool, stdout: &str) -> GitOutcome {
    GitOutcome::Exited { success, stdout: stdout.to_string() }
}

fn args(a: &GitAction) -> Vec<String> {
    match a {
        GitAction::Git { args, .. } => args.clone(),
        _ => panic!("expected a git command"),
    }
}

#[test]
fn scripted_scan_of_a_repository() {
    let (mut scan, a) = get_changed_files("/repo/web");
    assert!(matches!(a, GitAction::Canonicalize(ref p) if p == "/repo/web"));
    let a = scan.resolved(Some("/repo/web".to_string()));
    assert!(matches!(a, GitAction::Exists(ref p) if p == "/repo/web/.git"));
    let a = scan.found(false);
    assert!(matches!(a, GitAction::Exists(ref p) if p == "/repo/.git"));
    let a = scan.found(true);
    assert!(matches!(a, GitAction::IsDir(ref p) if p == "/repo"));
    let a = scan.found(true);
    assert_eq!(args(&a), vec!["status", "--porcelain", "-uall"]);
    let a = scan.ran(out(true, " M web/a.ts\nR  old.ts -> web/b.ts\n?? web/new.test.ts\n"));
    assert!(matches!(a, GitAction::Exists(ref p) if p == "/repo/web/a.ts"));
    let a = scan.found(true);
    assert!(matches!(a, GitAction::Exists(ref p) if p == "/repo/web/b.ts"));
    let a = scan.found(false);
    assert!(matches!(a, GitAction::Exists(ref p) if p == "/repo/web/new.test.ts"));
    let a = scan.found(true);
    assert!(matches!(a, GitAction::IsDir(ref p) if p == "/repo"));
    let a = scan.found(true);
    assert_eq!(args(&a), vec!["rev-parse", "--verify", "main"]);
    let a = scan.ran(out(false, ""));
    assert_eq!(args(&a), vec!["rev-parse", "--verify", "master"]);
    let a = scan.ran(out(true, "abc\n"));
    assert_eq!(args(&a), vec!["rev-parse", "--abbrev-ref", "HEAD"]);
    let a = scan.ran(out(true, "feature\n"));
    assert_eq!(args(&a), vec!["merge-base", "HEAD", "master"]);
    let a = scan.ran(out(true, "deadbeef\n"));
    assert_eq!(args(&a), vec!["diff", "--name-only", "deadbeef", "HEAD"]);
    let a = scan.ran(out(true, "web/c.ts\nother/d.ts\n"));
    assert!(matches!(a, GitAction::Exists(ref p) if p == "/repo/web/c.ts"));
    let a = scan.found(true);
    assert!(matches!(a, GitAction::Exists(ref p) if p == "/repo/other/d.ts"));
    let a = scan.found(true);
    assert!(matches!(a, GitAction::Canonicalize(ref p) if p == "/repo/web"));
    let a = scan.resolved(Some("/repo/web".to_string()));
    assert!(matches!(a, GitAction::Canonicalize(ref p) if p == "/repo/web/a.ts"));
    let a = scan.resolved(Some("/repo/web/a.ts".to_string()));
    assert!(matches!(a, GitAction::Canonicalize(ref p) if p == "/repo/web/new.test.ts"));
    let a = scan.resolved(Some("/repo/web/new.test.ts".to_string()));
    assert!(matches!(a, GitAction::Canonicalize(ref p) if p == "/repo/web/c.ts"));
    let a = scan.resolved(Some("/repo/web/c.ts".to_string()));
    assert!(matches!(a, GitAction::Canonicalize(ref p) if p == "/repo/other/d.ts"));
    let a = scan.resolved(Some("/repo/other/d.ts".to_string()));
    assert_eq!(scan.phase, ScanPhase::Finished);
    match a {
        GitAction::Done(Ok(files)) => assert_eq!(
            files,
            vec!["/repo/web/a.ts".to_string(), "/repo/web/c.ts".to_string(), "/repo/web/new.test.ts".to_string()]
        ),
        _ => panic!("expected the changed files"),
    }
}

#[test]
fn scan_on_the_main_branch_compares_with_the_previous_commit() {
    let (mut scan, _) = get_changed_files("/r");
    scan.resolved(Some("/r".to_string()));
    scan.found(true);
    scan.found(true);
    let a = scan.ran(out(false, ""));
    assert!(matches!(a, GitAction::IsDir(ref p) if p == "/r"));
    scan.found(true);
    let a = scan.ran(out(true, ""));
    assert_eq!(args(&a), vec!["rev-parse", "--abbrev-ref", "HEAD"]);
    let a = scan.ran(out(true, "main\n"));
    assert_eq!(args(&a), vec!["diff", "--name-only", "HEAD~1", "HEAD"]);
    let a = scan.ran(GitOutcome::NotRun);
    assert!(matches!(a, GitAction::Done(Err(ref m)) if m == "Failed to run git diff"));
}

#[test]
fn scan_errors_and_origin_head() {
    let (mut scan, _) = get_changed_files("/r");
    scan.resolved(None);
    scan.found(true);
    scan.found(true);
    let a = scan.ran(GitOutcome::NotRun);
    assert!(matches!(a, GitAction::Done(Err(ref m)) if m == "Failed to run git status"));

    let (mut scan, _) = get_changed_files("/r");
    scan.resolved(None);
    scan.found(true);
    scan.found(false);
    scan.found(true);
    scan.ran(out(false, ""));
    scan.ran(out(false, ""));
    let a = scan.ran(out(true, "refs/remotes/origin/trunk\n"));
    assert_eq!(scan.main_branch, "trunk");
    assert_eq!(args(&a), vec!["rev-parse", "--abbrev-ref", "HEAD"]);
    let a = scan.ran(GitOutcome::NotRun);
    assert!(matches!(a, GitAction::Done(Err(ref m)) if m == "Failed to get current branch"));
}

#[test]
fn git_output_reading() {
    assert_eq!(
        status_paths(" M src/a.ts\nR  old.ts -> src/b.ts\nA  \n?? src/c d.ts  \r\n", "/repo"),
        vec!["/repo/src/a.ts".to_string(), "/repo/src/b.ts".to_string(), "/repo/src/c d.ts".to_string()]
    );
    assert_eq!(status_paths("", "/repo"), Vec::<String>::new());
    assert!(status_output_readable_exec(" M a\n?? b\n"));
    assert!(!status_output_readable_exec("\u{e9}\u{e9}x\n"));
    assert_eq!(
        diff_paths("src/a.ts\n  src/b.ts  \n", "/repo"),
        vec!["/repo/src/a.ts".to_string(), "/repo/src/b.ts".to_string()]
    );
    assert_eq!(origin_head_branch_exec("refs/remotes/origin/main\n"), Some("main".to_string()));
    assert_eq!(origin_head_branch_exec("main\n"), None);
}

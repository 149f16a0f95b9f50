use rjest::protocol::{ipc_address, socket_path};
use rjest::text::{fields, last_piece_exec, lines, trim_chars};
use rjest::worker::{
    dev_worker_script, fill_missing, pages_to_bytes, parse_u64, statm_resident_pages, worker_error_message,
    worker_script_candidates,
};

fn s(v: &Vec<char>) -> String {
    v.iter().collect()
}

fn cs(x: &str) -> Vec<char> {
    x.chars().collect()
}

#[test]
fn lines_as_str_lines() {
    for text in ["", "a", "a\n", "a\r\nb", "a\n\nb\r", "\n", "x\r\n\r\n"] {
        let ours: Vec<String> = lines(text).iter().map(s).collect();
        let std: Vec<String> = text.lines().map(|l| l.to_string()).collect();
        assert_eq!(ours, std, "{:?}", text);
    }
}

#[test]
fn trim_and_fields() {
    for text in ["", "  a b  ", "\t\u{a0}x\u{3000}", "y", " \n "] {
        assert_eq!(s(&trim_chars(&cs(text))), text.trim(), "{:?}", text);
        let ours: Vec<String> = fields(text).iter().map(s).collect();
        let std: Vec<String> = text.split_whitespace().map(|f| f.to_string()).collect();
        assert_eq!(ours, std, "{:?}", text);
    }
}

#[test]
fn last_piece_as_split_last() {
    for (text, pat) in [("a -> b", " -> "), ("x", " -> "), (" -> -> c", " -> "), ("a -> b -> c", " -> "), ("aaa", "aa")] {
        let ours = s(&last_piece_exec(&cs(text), &cs(pat)));
        assert_eq!(ours, text.split(pat).last().unwrap(), "{:?}", text);
    }
}

#[test]
fn numbers_and_memory() {
    assert_eq!(parse_u64(&cs("18446744073709551615")), Some(u64::MAX));
    assert_eq!(parse_u64(&cs("18446744073709551616")), None);
    assert_eq!(parse_u64(&cs("+12")), Some(12));
    assert_eq!(parse_u64(&cs("")), None);
    assert_eq!(parse_u64(&cs("1a")), None);
    assert_eq!(statm_resident_pages("1000 250 30 4 0 90 0\n"), Some(250));
    assert_eq!(statm_resident_pages("1000"), None);
    assert_eq!(pages_to_bytes(250), 1_024_000);
}

#[test]
fn worker_messages() {
    assert_eq!(worker_error_message(Some("timeout")), "Worker error: timeout");
    assert_eq!(worker_error_message(None), "Worker error: Unknown error");
    assert_eq!(
        worker_script_candidates("/usr/bin"),
        vec![
            "/usr/bin/../lib/rjest-runtime/src/worker.js".to_string(),
            "/usr/bin/../../crates/rjest-runtime/src/worker.js".to_string(),
            "/usr/bin/worker.js".to_string(),
        ]
    );
    assert_eq!(dev_worker_script("/ws/crates/jestd"), "/ws/crates/jestd/../rjest-runtime/src/worker.js");
    let out: Vec<Result<u8, String>> = fill_missing(vec![Some(Ok(1)), None, Some(Err("x".to_string()))], false);
    assert_eq!(out, vec![Ok(1), Err("No result for test 1".to_string()), Err("x".to_string())]);
    let out: Vec<Result<u8, String>> = fill_missing(vec![None], true);
    assert_eq!(out, vec![Err("Worker thread panicked".to_string())]);
}

#[test]
fn socket_addresses() {
    assert_eq!(socket_path(Some("/run/user/1000"), 1000), "/run/user/1000/rjest-1000.sock");
    assert_eq!(socket_path(None, 0), "/tmp/rjest-0.sock");
    assert_eq!(ipc_address("/tmp/rjest-0.sock"), "ipc:///tmp/rjest-0.sock");
}

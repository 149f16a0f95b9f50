use rjest::bench::{add_spans, div_span, project_root, run_benchmark, try_project_root, Span};

fn ms(n: u64) -> Span {
    Span { secs: n / 1000, nanos: ((n % 1000) * 1_000_000) as u32 }
}

#[test]
fn benchmark_summary() {
    let times = vec![ms(30), ms(10), ms(20), ms(1500)];
    let r = run_benchmark("discovery", 4, &times);
    assert_eq!(r.name, "discovery");
    assert_eq!(r.iterations, 4);
    assert_eq!(r.total_time, Span { secs: 1, nanos: 560_000_000 });
    assert_eq!(r.avg_time, Span { secs: 0, nanos: 390_000_000 });
    assert_eq!(r.min_time, ms(10));
    assert_eq!(r.max_time, ms(1500));
}

#[test]
fn average_rounds_down_like_duration() {
    let d = Span { secs: 1, nanos: 0 };
    assert_eq!(div_span(d, 3), Span { secs: 0, nanos: 333_333_333 });
    assert_eq!(div_span(Span { secs: 7, nanos: 500 }, 2), Span { secs: 3, nanos: 500_000_250 });
    let x = std::time::Duration::new(7, 500) / 2;
    assert_eq!((x.as_secs(), x.subsec_nanos()), (3, 500_000_250));
    assert_eq!(add_spans(ms(600), ms(700)), Span { secs: 1, nanos: 300_000_000 });
}

#[test]
fn average_lies_between_extremes() {
    let times = vec![ms(5), ms(7), ms(6)];
    let r = run_benchmark("x", 3, &times);
    assert!(r.min_time.total_lt(&r.avg_time) || r.min_time == r.avg_time);
    assert!(r.avg_time.total_lt(&r.max_time) || r.avg_time == r.max_time);
    assert_eq!(r.avg_time, ms(6));
}

#[test]
fn workspace_root_from_manifest() {
    assert_eq!(project_root("/ws/crates/rjest-bench"), "/ws");
    assert_eq!(try_project_root("/ws/crates/rjest-bench"), Some("/ws".to_string()));
    assert_eq!(try_project_root("/"), None);
    assert_eq!(try_project_root("/a"), None);
}

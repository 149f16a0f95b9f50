use rjest::metrics::Metrics;
use rjest::transform::{
    file_extension, is_typescript_exec, needs_compiling_exec, source_hash, syntax_for, transform_typescript,
    transform_with_native_swc, unchanged_result, DiskLookup, SyntaxChoice, TransformCache, TransformResult,
};

fn compiled(path: &str, hash: &str) -> TransformResult {
    TransformResult {
        code: format!("compiled {}", path),
        source_map: None,
        original_path: path.to_string(),
        source_hash: hash.to_string(),
    }
}

#[test]
fn memory_read_after_write() {
    let mut cache = TransformCache::open();
    let mut m = Metrics::new();
    assert!(cache.get("/p/a.ts", "h1", &mut m).is_none());
    assert_eq!(m.cache_hits, 0);
    cache.set("/p/a.ts", compiled("/p/a.ts", "h1"));
    let hit = cache.get("/p/a.ts", "h1", &mut m).unwrap();
    assert_eq!(hit.code, "compiled /p/a.ts");
    assert_eq!(m.cache_hits, 1);
    assert!(cache.get("/p/a.ts", "h2", &mut m).is_none());
    assert_eq!(m.cache_hits, 1);
    assert_eq!(m.cache_misses, 0);
}

#[test]
fn disk_verdicts() {
    let mut cache = TransformCache::open();
    let mut m = Metrics::new();
    let r = cache.after_disk("/p/b.ts", "h", DiskLookup::Found(Some(compiled("/p/b.ts", "h"))), &mut m);
    assert!(r.is_some());
    assert_eq!((m.cache_hits, m.cache_misses), (1, 0));
    assert!(cache.get("/p/b.ts", "h", &mut m).is_some());
    assert_eq!(m.cache_hits, 2);
    let r = cache.after_disk("/p/c.ts", "new", DiskLookup::Found(Some(compiled("/p/c.ts", "old"))), &mut m);
    assert!(r.is_none());
    assert_eq!(m.cache_misses, 1);
    assert!(cache.after_disk("/p/c.ts", "h", DiskLookup::Found(None), &mut m).is_none());
    assert!(cache.after_disk("/p/c.ts", "h", DiskLookup::Absent, &mut m).is_none());
    assert_eq!(m.cache_misses, 3);
    assert!(cache.after_disk("/p/c.ts", "h", DiskLookup::Failed, &mut m).is_none());
    assert_eq!((m.cache_hits, m.cache_misses), (2, 3));
}

#[test]
fn what_gets_compiled() {
    for e in ["ts", "tsx", "jsx", "mts", "cts"] {
        assert!(needs_compiling_exec(e));
    }
    assert!(!needs_compiling_exec("js"));
    assert!(!needs_compiling_exec(""));
    assert!(is_typescript_exec("mts"));
    assert!(!is_typescript_exec("jsx"));
    assert_eq!(syntax_for("cts"), SyntaxChoice::TypeScript);
    assert_eq!(syntax_for("tsx"), SyntaxChoice::Tsx);
    assert_eq!(syntax_for("jsx"), SyntaxChoice::Jsx);
    assert_eq!(syntax_for("js"), SyntaxChoice::Es);
    assert_eq!(file_extension("/p/a.test.tsx"), "tsx");
    assert_eq!(file_extension("/p/Makefile"), "");
    let r = unchanged_result("/p/a.js", "module.exports = 1;", "abc");
    assert_eq!(r.code, "module.exports = 1;");
    assert!(r.source_map.is_none());
    assert_eq!(r.original_path, "/p/a.js");
    assert_eq!(r.source_hash, "abc");
}

#[test]
fn content_hash() {
    assert_eq!(source_hash(""), "af1349b9f5f9a1a6a0404dea36dcc9499bcb25c9adc112b7cc9a93cae41f3262");
    let h = source_hash("const x: number = 1;");
    assert_eq!(h.len(), 64);
    assert_ne!(h, source_hash("const x: number = 2;"));
    assert_eq!(h, source_hash("const x: number = 1;"));
}

#[test]
fn test_transform_typescript() {
    let source = r#"
const x: number = 1;
const y: string = "hello";
function foo(a: number, b: string): void {
    console.log(a, b);
}
"#;
    let result = transform_typescript("test.ts", source, "ts");

    assert!(result.is_ok());
    let code = result.unwrap();
    assert!(!code.contains(": number"));
    assert!(!code.contains(": string"));
    assert!(!code.contains(": void"));
    assert!(code.contains("console.log"));
}

#[test]
fn test_transform_tsx() {
    let source = r#"
interface Props {
    name: string;
}

const Component = (props: Props) => {
    return <div>Hello {props.name}</div>;
};
"#;
    let result = transform_typescript("test.tsx", source, "tsx");

    assert!(result.is_ok());
    let code = result.unwrap();
    assert!(!code.contains("interface Props"));
    assert!(!code.contains(": Props"));
}

#[test]
fn compiling_by_extension() {
    // Plain JavaScript runs as it is.
    let js = transform_with_native_swc("/p/a.test.js", "const a = 1;", "h").unwrap();
    assert_eq!(js.code, "const a = 1;");
    assert_eq!(js.original_path, "/p/a.test.js");
    assert_eq!(js.source_hash, "h");
    // ES module syntax becomes CommonJS.
    let ts = transform_with_native_swc("/p/a.test.ts", "export const a: number = 1;", "h2").unwrap();
    assert!(ts.code.contains("exports"));
    assert!(!ts.code.contains(": number"));
    assert_eq!(ts.source_hash, "h2");
    // A parse error is reported, not compiled.
    let bad = transform_with_native_swc("/p/b.test.ts", "const = ;", "h3");
    assert!(bad.unwrap_err().starts_with("Parse error"));
}

#[test]
fn full_memory_evicts_least_recently_used() {
    let mut cache = TransformCache::open();
    let mut m = Metrics::new();
    for i in 0..1000 {
        let p = format!("/p/{}.ts", i);
        cache.set(&p, compiled(&p, "h"));
    }
    // Using the oldest entry makes the second oldest the least recently used.
    assert!(cache.get("/p/0.ts", "h", &mut m).is_some());
    cache.set("/p/new.ts", compiled("/p/new.ts", "h"));
    assert!(cache.get("/p/1.ts", "h", &mut m).is_none());
    assert!(cache.get("/p/0.ts", "h", &mut m).is_some());
    assert!(cache.get("/p/new.ts", "h", &mut m).is_some());
    assert!(cache.get("/p/2.ts", "h", &mut m).is_some());
}

[package]
name = "rjest"
version = "0.1.0"
edition = "2021"
publish = false

[dependencies]
regex = "1"
anyhow = "1"
serde = { version = "1", features = ["derive"] }
serde_json = "1"
tracing = "0.1"
tracing-subscriber = { version = "0.3", features = ["env-filter"] }
tokio = { version = "1", features = ["rt-multi-thread", "macros", "process"] }
nng = "1"
notify = "*"
walkdir = "2"
uuid = { version = "1", features = ["v4"] }
dirs = "*"
libc = "0.2"
clap = { version = "4", features = ["derive"] }
ctrlc = "3"
lazy_static = "1"
blake3 = "1"
sled = "0.34"
lru = "*"
rayon = "1"
swc_common = "*"
swc_ecma_ast = "*"
swc_ecma_codegen = "*"
swc_ecma_parser = "*"
swc_ecma_transforms_base = "*"
swc_ecma_transforms_module = "*"
swc_ecma_transforms_typescript = "*"
swc_ecma_visit = "*"

[dev-dependencies]
tempfile = "3"

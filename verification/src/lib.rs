//! Verified core of the rjest test-runner daemon and CLI.

pub mod text;
pub mod paths;
pub mod git;
pub mod matching;
pub mod rjest_util;
pub mod watch;
pub mod protocol;
pub mod worker;
pub mod server;
pub mod config;
pub mod discovery;
pub mod metrics;
pub mod args;
pub mod output;
pub mod bench;
pub mod transform;
pub mod swc;
pub mod watch_mode;

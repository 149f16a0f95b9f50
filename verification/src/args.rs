//! The command line of the `jest` client, and what it asks for.

use vstd::prelude::*;
use crate::protocol::{RunFlags, RunRequest};
use crate::text::{copy_strings, decimal, push_decimal, push_str, string_from_chars};

verus! {

/// The options and patterns given on the command line.
#[derive(Debug, Clone)]
pub struct Args {
    /// Test file patterns to run
    pub patterns: Vec<String>,
    /// Run all tests serially in the current process
    pub run_in_band: bool,
    /// Watch files for changes and rerun related tests
    pub watch: bool,
    /// Watch files for changes and rerun all tests
    pub watch_all: bool,
    /// Exit immediately after first test failure
    pub bail: bool,
    /// Print test results in JSON format
    pub json: bool,
    /// Machine-readable output optimized for AI agents
    pub machine: bool,
    /// Display individual test results
    pub verbose: bool,
    /// Specifies the maximum number of workers
    pub max_workers: Option<u32>,
    /// Path to Jest configuration file
    pub config: Option<String>,
    /// Only run tests related to changed files
    pub only_changed: bool,
    /// Run tests related to specific files
    pub find_related_tests: Vec<String>,
    /// Update snapshots
    pub update_snapshots: bool,
    /// Collect test coverage
    pub coverage: bool,
    /// Run only tests matching this pattern
    pub test_name_pattern: Option<String>,
    /// Force fallback to upstream Jest
    pub fallback_to_jest: bool,
    /// Show daemon status
    pub daemon_status: bool,
    /// Stop the daemon
    pub daemon_stop: bool,
    /// Restart the daemon
    pub daemon_restart: bool,
    /// Health check - show detailed daemon health information
    pub daemon_health: bool,
}

fn copy_opt(s: &Option<String>) -> (r: Option<String>)
    ensures
        r == *s,
{
    match s {
        Some(v) => Some(v.clone()),
        None => None,
    }
}

/// What the client does for a command line.
#[derive(Debug, Clone, Copy, PartialEq, Eq, Structural)]
pub enum Command {
    /// Show the daemon's status
    DaemonStatus,
    /// Stop the daemon
    DaemonStop,
    /// Stop the daemon, then run the tests
    DaemonRestart,
    /// Show the daemon's health
    DaemonHealth,
    /// Hand the run to upstream Jest
    Fallback,
    /// Run the tests once
    Run,
    /// Run the tests in watch mode
    Watch,
}

impl Args {
    /// The run flags carry these arguments: each option as given, and
    /// watch mode when either watch option is on.
    pub open spec fn flags_match(&self, r: RunFlags) -> bool {
        &&& r.run_in_band == self.run_in_band
        &&& r.watch == (self.watch || self.watch_all)
        &&& r.bail == self.bail
        &&& r.json_output == self.json
        &&& r.machine_output == self.machine
        &&& r.max_workers == self.max_workers
        &&& r.config_path == self.config
        &&& r.only_changed == self.only_changed
        &&& r.find_related_tests@ == self.find_related_tests@
        &&& r.update_snapshots == self.update_snapshots
        &&& r.coverage == self.coverage
        &&& r.test_name_pattern == self.test_name_pattern
        &&& r.verbose == self.verbose
    }

    /// Extract just the RunFlags from args
    pub fn to_run_flags(&self) -> (r: RunFlags)
        ensures
            self.flags_match(r),
    {
        RunFlags {
            run_in_band: self.run_in_band,
            watch: self.watch || self.watch_all,
            bail: self.bail,
            json_output: self.json,
            machine_output: self.machine,
            max_workers: self.max_workers,
            config_path: copy_opt(&self.config),
            only_changed: self.only_changed,
            find_related_tests: copy_strings(self.find_related_tests.as_slice()),
            update_snapshots: self.update_snapshots,
            coverage: self.coverage,
            test_name_pattern: copy_opt(&self.test_name_pattern),
            verbose: self.verbose,
        }
    }

    /// The run request for the project at `project_root` (the current
    /// directory).
    pub fn to_run_request(&self, project_root: String) -> (r: RunRequest)
        ensures
            r.project_root == project_root,
            r.patterns@ == self.patterns@,
            self.flags_match(r.flags),
    {
        let flags = self.to_run_flags();
        RunRequest { project_root, patterns: copy_strings(self.patterns.as_slice()), flags }
    }

    /// What the command line asks for, in the order the client checks:
    /// the daemon commands, then the fallback to upstream Jest (by flag or
    /// by the `RJEST_FALLBACK` variable), then watch mode, then a run.
    pub fn command(&self, fallback_env: bool) -> (r: Command)
        ensures
            r == if self.daemon_status {
                Command::DaemonStatus
            } else if self.daemon_stop {
                Command::DaemonStop
            } else if self.daemon_restart {
                Command::DaemonRestart
            } else if self.daemon_health {
                Command::DaemonHealth
            } else if self.fallback_to_jest || fallback_env {
                Command::Fallback
            } else if self.watch || self.watch_all {
                Command::Watch
            } else {
                Command::Run
            },
    {
        if self.daemon_status {
            Command::DaemonStatus
        } else if self.daemon_stop {
            Command::DaemonStop
        } else if self.daemon_restart {
            Command::DaemonRestart
        } else if self.daemon_health {
            Command::DaemonHealth
        } else if self.fallback_to_jest || fallback_env {
            Command::Fallback
        } else if self.watch || self.watch_all {
            Command::Watch
        } else {
            Command::Run
        }
    }
}

/// The run flags sent to the daemon say what the command line said:
/// each option carried as given (`--onlyChanged` among them), JSON and
/// machine output as asked, and watch mode when either watch option is on.
pub proof fn law_run_flags_carry_command_line(a: Args, r: RunFlags)
    requires
        a.flags_match(r),
    ensures
        r.only_changed == a.only_changed,
        r.run_in_band == a.run_in_band,
        r.watch == (a.watch || a.watch_all),
        r.bail == a.bail,
        r.json_output == a.json,
        r.machine_output == a.machine,
        r.max_workers == a.max_workers,
        r.config_path == a.config,
        r.find_related_tests@ == a.find_related_tests@,
        r.update_snapshots == a.update_snapshots,
        r.coverage == a.coverage,
        r.test_name_pattern == a.test_name_pattern,
        r.verbose == a.verbose,
{
}

/// `[flag]` when `on`, else nothing.
pub open spec fn flag_arg(on: bool, flag: Seq<char>) -> Seq<Seq<char>> {
    if on {
        seq![flag]
    } else {
        seq![]
    }
}

/// `[prefix + value]` when there is a value, else nothing.
pub open spec fn valued_arg(v: Option<Seq<char>>, prefix: Seq<char>) -> Seq<Seq<char>> {
    match v {
        Some(x) => seq![prefix + x],
        None => seq![],
    }
}

/// `--findRelatedTests` before each file.
pub open spec fn related_args(files: Seq<String>) -> Seq<Seq<char>>
    decreases files.len(),
{
    if files.len() == 0 {
        seq![]
    } else {
        related_args(files.drop_last()) + seq!["--findRelatedTests"@, files.last()@]
    }
}

pub open spec fn string_views(v: Seq<String>) -> Seq<Seq<char>> {
    v.map_values(|s: String| s@)
}

pub open spec fn opt_view(v: Option<String>) -> Option<Seq<char>> {
    match v {
        Some(s) => Some(s@),
        None => None,
    }
}

/// The arguments upstream Jest is run with through `npx`.
pub open spec fn upstream_args(a: Args) -> Seq<Seq<char>> {
    seq!["jest"@] + string_views(a.patterns@) + flag_arg(a.run_in_band, "--runInBand"@) + flag_arg(
        a.watch,
        "--watch"@,
    ) + flag_arg(a.watch_all, "--watchAll"@) + flag_arg(a.bail, "--bail"@) + flag_arg(a.json, "--json"@)
        + flag_arg(a.verbose, "--verbose"@) + flag_arg(a.coverage, "--coverage"@) + flag_arg(
        a.update_snapshots,
        "-u"@,
    ) + flag_arg(a.only_changed, "--onlyChanged"@) + valued_arg(
        match a.max_workers {
            Some(n) => Some(decimal(n as nat)),
            None => None,
        },
        "--maxWorkers="@,
    ) + valued_arg(opt_view(a.config), "--config="@) + valued_arg(
        opt_view(a.test_name_pattern),
        "--testNamePattern="@,
    ) + related_args(a.find_related_tests@)
}

fn push_arg(out: &mut Vec<String>, s: String)
    ensures
        string_views(final(out)@) == string_views(old(out)@).push(s@),
{
    let ghost before = out@;
    out.push(s);
    assert(string_views(out@) =~= string_views(before).push(s@));
}

fn push_flag(out: &mut Vec<String>, on: bool, flag: &str)
    ensures
        string_views(final(out)@) == string_views(old(out)@) + flag_arg(on, flag@),
{
    if on {
        push_arg(out, String::from_str(flag));
        assert(string_views(out@) =~= string_views(old(out)@) + flag_arg(on, flag@));
    } else {
        assert(string_views(out@) =~= string_views(old(out)@) + flag_arg(on, flag@));
    }
}

fn push_valued(out: &mut Vec<String>, v: &Option<String>, prefix: &str)
    ensures
        string_views(final(out)@) == string_views(old(out)@) + valued_arg(opt_view(*v), prefix@),
{
    match v {
        Some(x) => {
            let s = String::from_str(prefix).concat(x.as_str());
            push_arg(out, s);
            assert(string_views(out@) =~= string_views(old(out)@) + valued_arg(opt_view(*v), prefix@));
        },
        None => {
            assert(string_views(out@) =~= string_views(old(out)@) + valued_arg(opt_view(*v), prefix@));
        },
    }
}

impl Args {
    /// The arguments for running upstream Jest with the same patterns and
    /// options: `jest`, the patterns, then each option given, in Jest's
    /// spelling.
    pub fn upstream_jest_args(&self) -> (r: Vec<String>)
        ensures
            string_views(r@) == upstream_args(*self),
    {
        let mut out: Vec<String> = Vec::new();
        push_arg(&mut out, String::from_str("jest"));
        let mut i: usize = 0;
        while i < self.patterns.len()
            invariant
                i <= self.patterns@.len(),
                string_views(out@) == seq!["jest"@] + string_views(self.patterns@.take(i as int)),
            decreases self.patterns@.len() - i,
        {
            push_arg(&mut out, self.patterns[i].clone());
            i = i + 1;
            assert(string_views(self.patterns@.take(i as int)) =~= string_views(self.patterns@.take(i - 1)).push(self.patterns@[i - 1]@));
            assert(string_views(out@) =~= seq!["jest"@] + string_views(self.patterns@.take(i as int)));
        }
        assert(self.patterns@.take(self.patterns@.len() as int) =~= self.patterns@);
        push_flag(&mut out, self.run_in_band, "--runInBand");
        push_flag(&mut out, self.watch, "--watch");
        push_flag(&mut out, self.watch_all, "--watchAll");
        push_flag(&mut out, self.bail, "--bail");
        push_flag(&mut out, self.json, "--json");
        push_flag(&mut out, self.verbose, "--verbose");
        push_flag(&mut out, self.coverage, "--coverage");
        push_flag(&mut out, self.update_snapshots, "-u");
        push_flag(&mut out, self.only_changed, "--onlyChanged");
        let workers: Option<String> = match self.max_workers {
            Some(n) => Some(crate::text::decimal_string(n as u64)),
            None => None,
        };
        push_valued(&mut out, &workers, "--maxWorkers=");
        push_valued(&mut out, &self.config, "--config=");
        push_valued(&mut out, &self.test_name_pattern, "--testNamePattern=");
        let ghost head = string_views(out@);
        let mut j: usize = 0;
        assert(self.find_related_tests@.take(0) =~= Seq::<String>::empty());
        while j < self.find_related_tests.len()
            invariant
                j <= self.find_related_tests@.len(),
                string_views(out@) == head + related_args(self.find_related_tests@.take(j as int)),
            decreases self.find_related_tests@.len() - j,
        {
            push_arg(&mut out, String::from_str("--findRelatedTests"));
            push_arg(&mut out, self.find_related_tests[j].clone());
            j = j + 1;
            assert(self.find_related_tests@.take(j as int).drop_last() =~= self.find_related_tests@.take(j - 1));
            assert(string_views(out@) =~= head + related_args(self.find_related_tests@.take(j as int)));
        }
        assert(self.find_related_tests@.take(self.find_related_tests@.len() as int) =~= self.find_related_tests@);
        assert(string_views(out@) =~= upstream_args(*self));
        out
    }
}

} // verus!

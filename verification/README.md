# rjest

A fast, Jest-compatible test runner: a daemon (`jestd`) keeps project
configurations, compiled test files and Node worker processes warm, and a
client (`jest`) sends it requests over a local socket and shows the results.

This crate holds the runner's logic as a library verified with Verus, and
the program around it.

- `src/` is the verified library:
  - `paths`, `text`: how paths, lines, whitespace and numbers are read, as
    `std` reads them.
  - `rjest_util`, `matching`, `config`, `discovery`: which files are tests
    (globs, regexes, extensions), the per-root discovery cache, and the
    narrowing of tests by pattern or by related source file.
  - `git`: which tests a change concerns, how `git` output is read, and the
    step-by-step scan for changed files that its caller drives with real
    commands and file-system answers.
  - `watch`: which changes count in watch mode and which tests they affect.
  - `transform`, `swc`: what gets compiled and how (SWC behind two calls,
    parsing and lowering), the content hash, and the in-memory layer of
    the cache of compiled files.
  - `worker`: pool sizing, recycling, ordering of results from parallel
    runs, and the worker protocol's messages.
  - `server`: what each request asks for, the tally of a run, responses,
    health, and the decisions of watch polls and monorepo runs.
  - `protocol`, `args`, `output`, `metrics`, `bench`: the messages, the
    command line, the report shown to a person, the counters, and
    benchmark summaries.
  - `watch_mode`: the client's watch mode, step by step: what each reply
    of the daemon shows and when the session is stopped.
- `tests/` exercises the library.
- `app/` is the program: sockets, processes, threads, the file system,
  the on-disk cache, JSON, and the command-line parser.

//! The decisions of the client's watch mode: after each reply of the
//! daemon, what to show, whether to go on polling, and when to stop the
//! session. The caller sends the requests, prints, and watches for Ctrl+C.

use vstd::prelude::*;
use crate::output::line_views;
use crate::protocol::{ErrorResponse, RunResponse, WatchPollResponse, WatchStartedResponse};
use crate::text::{push_str, string_from_chars};

verus! {

/// Where watch mode stands.
pub enum WatchPhase {
    /// The start request was sent; its reply is awaited.
    Starting,
    /// The session with this id is being polled.
    Watching(String),
    /// Nothing more is sent.
    Finished,
}

/// What happened since the last step.
pub enum WatchEvent {
    /// The daemon started a session.
    Started(WatchStartedResponse),
    /// The daemon answered a poll.
    Polled(WatchPollResponse),
    /// The daemon answered with an error.
    Failed(ErrorResponse),
    /// The daemon answered with a reply of another kind.
    Unexpected,
    /// The user asked to stop.
    Interrupted,
}

/// What the caller does next.
pub enum WatchAction {
    /// Print `notes` on the error stream, then the run, if any, then the
    /// closing note, if any, on the error stream.
    Show { notes: Vec<String>, run: Option<RunResponse>, closing: Option<String> },
    /// Give up with this message.
    Abort(String),
    /// Send the stop request of this session.
    Stop(String),
    /// Nothing; poll again while watching.
    Idle,
}

/// The note after a run: what failed, then that watching goes on.
pub open spec fn watching_note(success: bool) -> Seq<char> {
    if success {
        "\nWatching for changes..."@
    } else {
        "\nTests failed. Watching for changes..."@
    }
}

/// The lines that list changed files, none when no file changed.
pub open spec fn change_notes(files: Seq<String>) -> Seq<Seq<char>> {
    if files.len() == 0 {
        seq![]
    } else {
        seq!["\n\x1b[2m--- File changes detected ---\x1b[0m"@] + files.map_values(|f: String| "  "@ + f@)
    }
}

/// The notes before the run of a poll with changes: the changed files, then
/// an empty line when a run follows.
pub open spec fn poll_notes(p: WatchPollResponse) -> Seq<Seq<char>> {
    change_notes(p.changed_files@) + if p.run_result is Some {
        seq![seq![]]
    } else {
        seq![]
    }
}

/// The message when the start request fails.
pub open spec fn start_failure(message: Seq<char>) -> Seq<char> {
    "Failed to start watch mode: "@ + message
}

/// The message when the daemon answers the start request with another kind
/// of reply.
pub open spec fn unexpected_reply() -> Seq<char> {
    "Unexpected response from daemon"@
}

/// The note when a poll is answered with an error.
pub open spec fn poll_failure(message: Seq<char>) -> Seq<char> {
    "Watch error: "@ + message
}

fn text_of(prefix: &str, rest: &str) -> (r: String)
    ensures
        r@ == prefix@ + rest@,
{
    let mut out: Vec<char> = Vec::new();
    push_str(&mut out, prefix);
    push_str(&mut out, rest);
    string_from_chars(&out)
}

fn owned(s: &str) -> (r: String)
    ensures
        r@ == s@,
{
    string_from_chars(&crate::text::chars_of(s))
}

fn closing_note(success: bool) -> (r: String)
    ensures
        r@ == watching_note(success),
{
    if success {
        owned("\nWatching for changes...")
    } else {
        owned("\nTests failed. Watching for changes...")
    }
}

fn notes_of_poll(p: &WatchPollResponse) -> (r: Vec<String>)
    ensures
        line_views(r@) == poll_notes(*p),
{
    let mut out: Vec<String> = Vec::new();
    if p.changed_files.len() > 0 {
        out.push(owned("\n\x1b[2m--- File changes detected ---\x1b[0m"));
        let mut i: usize = 0;
        while i < p.changed_files.len()
            invariant
                0 < p.changed_files.len(),
                i <= p.changed_files.len(),
                line_views(out@) == seq!["\n\x1b[2m--- File changes detected ---\x1b[0m"@] + p.changed_files@.take(
                    i as int,
                ).map_values(|f: String| "  "@ + f@),
            decreases p.changed_files.len() - i,
        {
            let ghost before = out@;
            let line = text_of("  ", p.changed_files[i].as_str());
            out.push(line);
            proof {
                let f = |f: String| "  "@ + f@;
                assert(line_views(out@) =~= line_views(before).push(line@));
                assert(p.changed_files@.take(i + 1).map_values(f) =~= p.changed_files@.take(i as int).map_values(
                    f,
                ).push(f(p.changed_files@[i as int])));
            }
            i = i + 1;
        }
        proof {
            assert(p.changed_files@.take(i as int) == p.changed_files@);
        }
    }
    if p.run_result.is_some() {
        out.push(String::new());
    }
    proof {
        assert(line_views(out@) == poll_notes(*p));
    }
    out
}

/// One step of watch mode: from where it stands and what happened, where it
/// goes and what the caller does.
///
/// A started session shows its first run and is polled; a failed or
/// unexpected start gives up. While watching, a poll with changes shows the
/// changed files and the new run, a failed poll shows its error, anything
/// else is ignored, and an interruption stops the session. Once finished,
/// nothing more happens.
pub fn watch_step(phase: &WatchPhase, event: WatchEvent) -> (r: (WatchPhase, WatchAction))
    ensures
        match *phase {
            WatchPhase::Starting => match event {
                WatchEvent::Started(s) => {
                    &&& r.0 == WatchPhase::Watching(s.session_id)
                    &&& r.1 matches WatchAction::Show { notes, run, closing }
                    &&& notes@.len() == 0
                    &&& run == Some(s.initial_run)
                    &&& closing matches Some(c) && c@ == watching_note(s.initial_run.success)
                },
                WatchEvent::Failed(e) => {
                    &&& r.0 is Finished
                    &&& r.1 matches WatchAction::Abort(m) && m@ == start_failure(e.message@)
                },
                WatchEvent::Polled(_) | WatchEvent::Unexpected => {
                    &&& r.0 is Finished
                    &&& r.1 matches WatchAction::Abort(m) && m@ == unexpected_reply()
                },
                WatchEvent::Interrupted => r.0 is Finished && r.1 is Idle,
            },
            WatchPhase::Watching(id) => match event {
                WatchEvent::Polled(p) => {
                    &&& r.0 == WatchPhase::Watching(id)
                    &&& if p.has_changes {
                        &&& r.1 matches WatchAction::Show { notes, run, closing }
                        &&& line_views(notes@) == poll_notes(p)
                        &&& run == p.run_result
                        &&& match p.run_result {
                            Some(x) => closing matches Some(c) && c@ == watching_note(x.success),
                            None => closing is None,
                        }
                    } else {
                        r.1 is Idle
                    }
                },
                WatchEvent::Failed(e) => {
                    &&& r.0 == WatchPhase::Watching(id)
                    &&& r.1 matches WatchAction::Show { notes, run, closing }
                    &&& line_views(notes@) == seq![poll_failure(e.message@)]
                    &&& run is None
                    &&& closing is None
                },
                WatchEvent::Started(_) | WatchEvent::Unexpected => r.0 == WatchPhase::Watching(id) && r.1 is Idle,
                WatchEvent::Interrupted => r.0 is Finished && r.1 == WatchAction::Stop(id),
            },
            WatchPhase::Finished => r.0 is Finished && r.1 is Idle,
        },
{
    match phase {
        WatchPhase::Starting => match event {
            WatchEvent::Started(s) => {
                let closing = closing_note(s.initial_run.success);
                (
                    WatchPhase::Watching(s.session_id),
                    WatchAction::Show { notes: Vec::new(), run: Some(s.initial_run), closing: Some(closing) },
                )
            },
            WatchEvent::Failed(e) => (
                WatchPhase::Finished,
                WatchAction::Abort(text_of("Failed to start watch mode: ", e.message.as_str())),
            ),
            WatchEvent::Polled(_) | WatchEvent::Unexpected => (
                WatchPhase::Finished,
                WatchAction::Abort(owned("Unexpected response from daemon")),
            ),
            WatchEvent::Interrupted => (WatchPhase::Finished, WatchAction::Idle),
        },
        WatchPhase::Watching(id) => match event {
            WatchEvent::Polled(p) => {
                if p.has_changes {
                    let notes = notes_of_poll(&p);
                    let closing = match &p.run_result {
                        Some(x) => Some(closing_note(x.success)),
                        None => None,
                    };
                    (WatchPhase::Watching(id.clone()), WatchAction::Show { notes, run: p.run_result, closing })
                } else {
                    (WatchPhase::Watching(id.clone()), WatchAction::Idle)
                }
            },
            WatchEvent::Failed(e) => {
                let mut notes: Vec<String> = Vec::new();
                notes.push(text_of("Watch error: ", e.message.as_str()));
                proof {
                    assert(line_views(notes@) == seq![poll_failure(e.message@)]);
                }
                (WatchPhase::Watching(id.clone()), WatchAction::Show { notes, run: None, closing: None })
            },
            WatchEvent::Started(_) | WatchEvent::Unexpected => (WatchPhase::Watching(id.clone()), WatchAction::Idle),
            WatchEvent::Interrupted => (WatchPhase::Finished, WatchAction::Stop(id.clone())),
        },
        WatchPhase::Finished => (WatchPhase::Finished, WatchAction::Idle),
    }
}

} // verus!

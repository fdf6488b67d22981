//! The terminal controller: one shell session's state and decisions.
//!
//! The controller owns the scrollback, the command history, the input line
//! and the tracked working directory of a single shell session. The
//! blocking pseudo-terminal I/O lives outside: a relay thread reads the
//! shell's output and sends decoded fragments through a channel that the
//! controller drains once per tick, and every method that wants bytes
//! written to the shell returns the exact text to write instead of writing
//! it itself.

use vstd::prelude::*;

use crate::ansi;
use crate::history::{submit_spec, CommandHistory};
use crate::scrollback::{evict, feed, ScrollbackBuffer};
use crate::text::{is_blank, str_eq, str_is_blank};

verus! {

/// Where establishing a session failed.
///
/// Each failure is non-fatal: it is reported as one scrollback line and the
/// panel stays usable, just with no shell attached.
#[derive(Clone, Copy, PartialEq, Eq, Structural, Debug)]
pub enum SessionError {
    /// The pseudo-terminal could not be opened.
    PtyOpen,
    /// The shell process could not be spawned.
    ShellSpawn,
    /// The writer or reader handle could not be taken from the pty.
    HandleAcquisition,
}

/// The diagnostic prefix reported for each establishment failure.
pub open spec fn error_prefix(err: SessionError) -> Seq<char> {
    match err {
        SessionError::PtyOpen => "Failed to open PTY: "@,
        SessionError::ShellSpawn => "Failed to spawn shell: "@,
        SessionError::HandleAcquisition => "Failed to acquire PTY handles: "@,
    }
}

/// The line announcing a successfully attached session.
pub open spec fn ready_line(dir: Seq<char>) -> Seq<char> {
    "Terminal ready in: "@ + dir
}

/// The exact text written to the shell to change its directory: the path in
/// double quotes after `cd `, ended by a newline. The path is not otherwise
/// escaped.
pub open spec fn cd_command(path: Seq<char>) -> Seq<char> {
    "cd \""@ + path + "\"\n"@
}

/// Whether a directory-change request writes to the shell: only when the
/// target differs from the tracked directory, and only with a shell attached.
pub open spec fn change_sends(tracked_dir: Seq<char>, path: Seq<char>, attached: bool) -> bool {
    tracked_dir != path && attached
}

/// The directory tracked after a change request: always the requested one.
pub open spec fn dir_after_change(tracked_dir: Seq<char>, path: Seq<char>) -> Seq<char> {
    path
}

/// A directory change is sent only once: after a change to `path`, a second
/// request for the same `path` writes nothing, attached or not.
pub proof fn lemma_second_change_sends_nothing(
    tracked_dir: Seq<char>,
    path: Seq<char>,
    attached: bool,
)
    ensures
        !change_sends(dir_after_change(tracked_dir, path), path, attached),
{
}

#[verifier::external_type_specification]
#[verifier::external_body]
#[verifier::reject_recursive_types(T)]
pub struct ExSender<T>(std::sync::mpsc::Sender<T>);

#[verifier::external_type_specification]
#[verifier::external_body]
#[verifier::reject_recursive_types(T)]
pub struct ExReceiver<T>(std::sync::mpsc::Receiver<T>);

/// Relies on std's `mpsc::channel`: a connected sender/receiver pair whose
/// messages arrive in the order they were sent.
#[verifier::external_body]
fn fragment_channel() -> (r: (
    std::sync::mpsc::Sender<String>,
    std::sync::mpsc::Receiver<String>,
)) {
    std::sync::mpsc::channel()
}

/// Relies on std's `mpsc::Sender::clone`: another sending handle to the same
/// channel.
#[verifier::external_body]
fn clone_fragment_sender(tx: &std::sync::mpsc::Sender<String>) -> (r: std::sync::mpsc::Sender<
    String,
>) {
    tx.clone()
}

/// Relies on std's `mpsc::Receiver::try_recv`: a pending message if one is
/// waiting, and nothing otherwise, never blocking. Which fragment arrives
/// depends on what the relay thread has sent, so nothing more is promised.
#[verifier::external_body]
fn try_recv_fragment(rx: &std::sync::mpsc::Receiver<String>) -> (r: Option<String>) {
    rx.try_recv().ok()
}

/// The state of one embedded shell session.
pub struct TerminalPanel {
    current_dir: String,
    scrollback: ScrollbackBuffer,
    input_buffer: String,
    history: CommandHistory,
    output_sender: std::sync::mpsc::Sender<String>,
    output_receiver: std::sync::mpsc::Receiver<String>,
    attached: bool,
}

impl TerminalPanel {
    /// The directory the shell is tracked to be in.
    pub closed spec fn dir(&self) -> Seq<char> {
        self.current_dir@
    }

    /// The input line being edited.
    pub closed spec fn input(&self) -> Seq<char> {
        self.input_buffer@
    }

    /// The scrollback log.
    pub closed spec fn scroll(&self) -> ScrollbackBuffer {
        self.scrollback
    }

    /// The command history.
    pub closed spec fn hist(&self) -> CommandHistory {
        self.history
    }

    /// Whether a shell is attached: writer and reader handles exist.
    pub closed spec fn attached(&self) -> bool {
        self.attached
    }

    /// The components' own invariants.
    pub open spec fn wf(&self) -> bool {
        &&& self.scroll().wf()
        &&& self.hist().wf()
    }

    /// A fresh panel tracking `initial_dir`, with no shell attached yet.
    pub fn new(initial_dir: String) -> (r: TerminalPanel)
        ensures
            r.wf(),
            r.dir() == initial_dir@,
            r.input() == Seq::<char>::empty(),
            r.scroll().view_lines() == Seq::<Seq<char>>::empty(),
            !r.scroll().is_open(),
            r.hist().view_entries() == Seq::<Seq<char>>::empty(),
            r.hist().cursor_at() is None,
            !r.attached(),
    {
        let (tx, rx) = fragment_channel();
        TerminalPanel {
            current_dir: initial_dir,
            scrollback: ScrollbackBuffer::new(),
            input_buffer: String::new(),
            history: CommandHistory::new(),
            output_sender: tx,
            output_receiver: rx,
            attached: false,
        }
    }

    /// A sending handle for the relay thread that reads the shell's output.
    pub fn output_sender(&self) -> std::sync::mpsc::Sender<String> {
        clone_fragment_sender(&self.output_sender)
    }

    /// Records that the session is attached and announces it in the
    /// scrollback.
    pub fn session_opened(&mut self)
        requires
            old(self).wf(),
        ensures
            final(self).wf(),
            final(self).attached(),
            final(self).dir() == old(self).dir(),
            final(self).input() == old(self).input(),
            final(self).hist() == old(self).hist(),
            final(self).scroll().view_lines() == evict(
                old(self).scroll().view_lines().push(ready_line(old(self).dir())),
            ),
            !final(self).scroll().is_open(),
    {
        self.attached = true;
        let mut line = "Terminal ready in: ".to_owned();
        line.append(self.current_dir.as_str());
        self.scrollback.push_line(line);
    }

    /// Records that establishing the session failed, with one diagnostic
    /// line. The panel stays usable but inert: nothing is attached.
    pub fn session_failed(&mut self, err: SessionError, detail: &str)
        requires
            old(self).wf(),
        ensures
            final(self).wf(),
            !final(self).attached(),
            final(self).dir() == old(self).dir(),
            final(self).input() == old(self).input(),
            final(self).hist() == old(self).hist(),
            final(self).scroll().view_lines() == evict(
                old(self).scroll().view_lines().push(error_prefix(err) + detail@),
            ),
            !final(self).scroll().is_open(),
    {
        self.attached = false;
        let mut line = match err {
            SessionError::PtyOpen => "Failed to open PTY: ".to_owned(),
            SessionError::ShellSpawn => "Failed to spawn shell: ".to_owned(),
            SessionError::HandleAcquisition => "Failed to acquire PTY handles: ".to_owned(),
        };
        line.append(detail);
        self.scrollback.push_line(line);
    }

    /// Tracks a new working directory, handing back the `cd` command to
    /// write to the shell.
    ///
    /// The command is produced only when `path` differs from the tracked
    /// directory and a shell is attached; a repeated request for the same
    /// path produces nothing.
    pub fn set_directory(&mut self, path: String) -> (r: Option<String>)
        requires
            old(self).wf(),
        ensures
            final(self).wf(),
            final(self).scroll() == old(self).scroll(),
            final(self).hist() == old(self).hist(),
            final(self).input() == old(self).input(),
            final(self).attached() == old(self).attached(),
            old(self).dir() == path@ ==> final(self).dir() == old(self).dir() && r is None,
            old(self).dir() != path@ ==> {
                &&& final(self).dir() == dir_after_change(old(self).dir(), path@)
                &&& change_sends(old(self).dir(), path@, old(self).attached()) ==> (r matches Some(
                    s,
                ) && s@ == cd_command(path@))
                &&& !change_sends(old(self).dir(), path@, old(self).attached()) ==> r is None
            },
    {
        if str_eq(self.current_dir.as_str(), path.as_str()) {
            return None;
        }
        let mut cmd = "cd \"".to_owned();
        cmd.append(path.as_str());
        cmd.append("\"\n");
        self.current_dir = path;
        if self.attached {
            Some(cmd)
        } else {
            None
        }
    }

    /// Submits the input line when the user presses enter.
    ///
    /// A blank input line stands for pressing enter with no command: a bare
    /// newline is handed back for the shell and the history is not touched.
    /// Anything else is recorded in the history, the input line is cleared,
    /// and the command with a trailing newline is handed back. In both cases
    /// text is handed back only while a shell is attached.
    pub fn submit_input(&mut self) -> (r: Option<String>)
        requires
            old(self).wf(),
        ensures
            final(self).wf(),
            final(self).scroll() == old(self).scroll(),
            final(self).dir() == old(self).dir(),
            final(self).attached() == old(self).attached(),
            is_blank(old(self).input()) ==> {
                &&& final(self).input() == old(self).input()
                &&& final(self).hist() == old(self).hist()
                &&& (old(self).attached() ==> (r matches Some(s) && s@ == "\n"@))
                &&& (!old(self).attached() ==> r is None)
            },
            !is_blank(old(self).input()) ==> {
                &&& final(self).input() == Seq::<char>::empty()
                &&& final(self).hist().view_entries() == submit_spec(
                    old(self).hist().view_entries(),
                    old(self).input(),
                )
                &&& final(self).hist().cursor_at() is None
                &&& (old(self).attached() ==> (r matches Some(s) && s@ == old(self).input()
                    + "\n"@))
                &&& (!old(self).attached() ==> r is None)
            },
    {
        if str_is_blank(self.input_buffer.as_str()) {
            if self.attached {
                Some("\n".to_owned())
            } else {
                None
            }
        } else {
            let command = self.input_buffer.clone();
            let mut msg = self.input_buffer.clone();
            msg.append("\n");
            self.history.submit(command);
            self.input_buffer = String::new();
            if self.attached {
                Some(msg)
            } else {
                None
            }
        }
    }

    /// The single interrupt byte to write when the user asks to interrupt
    /// the foreground process, if a shell is attached.
    pub fn interrupt(&self) -> (r: Option<String>)
        ensures
            self.attached() ==> (r matches Some(s) && s@ == "\u{3}"@),
            !self.attached() ==> r is None,
    {
        if self.attached {
            Some("\u{3}".to_owned())
        } else {
            None
        }
    }

    /// Replaces the input line with an older history entry, as the up arrow
    /// does. With an empty history, or already at the oldest entry, nothing
    /// changes.
    pub fn history_prev(&mut self)
        requires
            old(self).wf(),
        ensures
            final(self).wf(),
            final(self).scroll() == old(self).scroll(),
            final(self).dir() == old(self).dir(),
            final(self).attached() == old(self).attached(),
            final(self).hist().view_entries() == old(self).hist().view_entries(),
            ({
                let n = old(self).hist().view_entries().len() as int;
                match old(self).hist().cursor_at() {
                    None => {
                        if n == 0 {
                            final(self).hist().cursor_at() is None && final(self).input() == old(
                                self,
                            ).input()
                        } else {
                            final(self).hist().cursor_at() == Some(n - 1) && final(self).input()
                                == old(self).hist().view_entries()[n - 1]
                        }
                    },
                    Some(i) => {
                        if i > 0 {
                            final(self).hist().cursor_at() == Some(i - 1) && final(self).input()
                                == old(self).hist().view_entries()[i - 1]
                        } else {
                            final(self).hist().cursor_at() == Some(i) && final(self).input() == old(
                                self,
                            ).input()
                        }
                    },
                }
            }),
    {
        let recalled = self.history.recall_previous();
        match recalled {
            Some(entry) => {
                self.input_buffer = entry;
            },
            None => {},
        }
    }

    /// Replaces the input line with a newer history entry, as the down arrow
    /// does. Stepping past the newest entry leaves recall mode and clears
    /// the input line; at rest this is a no-op.
    pub fn history_next(&mut self)
        requires
            old(self).wf(),
        ensures
            final(self).wf(),
            final(self).scroll() == old(self).scroll(),
            final(self).dir() == old(self).dir(),
            final(self).attached() == old(self).attached(),
            final(self).hist().view_entries() == old(self).hist().view_entries(),
            ({
                let n = old(self).hist().view_entries().len() as int;
                match old(self).hist().cursor_at() {
                    None => final(self).hist().cursor_at() is None && final(self).input() == old(
                        self,
                    ).input(),
                    Some(i) => {
                        if i + 1 < n {
                            final(self).hist().cursor_at() == Some(i + 1) && final(self).input()
                                == old(self).hist().view_entries()[i + 1]
                        } else {
                            final(self).hist().cursor_at() is None && final(self).input()
                                == Seq::<char>::empty()
                        }
                    },
                }
            }),
    {
        let recalled = self.history.recall_next();
        match recalled {
            Some(entry) => {
                self.input_buffer = entry;
            },
            None => {},
        }
    }

    /// Sanitizes one output fragment and logs it in the scrollback.
    pub fn handle_fragment(&mut self, fragment: &str)
        requires
            old(self).wf(),
        ensures
            final(self).wf(),
            final(self).dir() == old(self).dir(),
            final(self).input() == old(self).input(),
            final(self).hist() == old(self).hist(),
            final(self).attached() == old(self).attached(),
            final(self).scroll().view_lines() == evict(
                feed(
                    old(self).scroll().view_lines(),
                    old(self).scroll().is_open(),
                    ansi::strip_spec(fragment@),
                ).0,
            ),
            final(self).scroll().is_open() == feed(
                old(self).scroll().view_lines(),
                old(self).scroll().is_open(),
                ansi::strip_spec(fragment@),
            ).1,
    {
        let clean = ansi::strip_ansi_escapes(fragment);
        self.scrollback.append(clean.as_str());
    }

    /// The per-tick update: drains the fragments the relay thread has sent
    /// so far into the scrollback, without ever blocking. An empty channel
    /// is the normal, frequent case. One tick handles a generous but finite
    /// number of fragments, so a flood of output cannot stall the tick;
    /// anything beyond that waits for the next tick.
    pub fn update(&mut self)
        requires
            old(self).wf(),
        ensures
            final(self).wf(),
            final(self).dir() == old(self).dir(),
            final(self).input() == old(self).input(),
            final(self).hist() == old(self).hist(),
            final(self).attached() == old(self).attached(),
    {
        let mut budget: usize = 65536;
        loop
            invariant
                self.wf(),
                self.dir() == old(self).dir(),
                self.input() == old(self).input(),
                self.hist() == old(self).hist(),
                self.attached() == old(self).attached(),
            decreases budget,
        {
            if budget == 0 {
                break ;
            }
            budget = budget - 1;
            let next = try_recv_fragment(&self.output_receiver);
            match next {
                Some(fragment) => {
                    self.handle_fragment(fragment.as_str());
                },
                None => {
                    break ;
                },
            }
        }
    }

    /// Empties the scrollback, for the explicit user-triggered reset.
    pub fn clear_scrollback(&mut self)
        requires
            old(self).wf(),
        ensures
            final(self).wf(),
            final(self).scroll().view_lines() == Seq::<Seq<char>>::empty(),
            !final(self).scroll().is_open(),
            final(self).dir() == old(self).dir(),
            final(self).input() == old(self).input(),
            final(self).hist() == old(self).hist(),
            final(self).attached() == old(self).attached(),
    {
        self.scrollback.clear();
    }

    /// The scrollback's lines, oldest first, for rendering.
    pub fn scrollback_lines(&self) -> (r: &Vec<String>)
        ensures
            crate::scrollback::views(r@) == self.scroll().view_lines(),
    {
        self.scrollback.lines()
    }

    /// The input line's text.
    pub fn input_text(&self) -> (r: &String)
        ensures
            r@ == self.input(),
    {
        &self.input_buffer
    }

    /// Replaces the input line, as the host does while the user edits it.
    pub fn set_input(&mut self, text: String)
        ensures
            final(self).input() == text@,
            final(self).wf() == old(self).wf(),
            final(self).scroll() == old(self).scroll(),
            final(self).dir() == old(self).dir(),
            final(self).hist() == old(self).hist(),
            final(self).attached() == old(self).attached(),
    {
        self.input_buffer = text;
    }

    /// The tracked working directory, for the header.
    pub fn current_dir(&self) -> (r: &String)
        ensures
            r@ == self.dir(),
    {
        &self.current_dir
    }

    /// Whether a shell is attached.
    pub fn is_attached(&self) -> (r: bool)
        ensures
            r == self.attached(),
    {
        self.attached
    }
}

} // verus!

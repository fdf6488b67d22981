//! The bounded log of previously submitted commands, with a recall cursor.
//!
//! Submissions append to the log; once the cap is exceeded, the oldest entry
//! is evicted. A cursor tracks the entry currently being recalled; it is
//! absent at rest and cleared by every new submission.

use vstd::prelude::*;

verus! {

/// The most entries the history ever holds.
pub const HISTORY_CAP: usize = 100;

/// The mathematical view of a vector of commands.
pub open spec fn entry_views(entries: Seq<String>) -> Seq<Seq<char>> {
    entries.map_values(|e: String| e@)
}

/// What the entry log becomes when `command` is submitted: the command is
/// appended, and if the log then exceeds the cap the oldest entry goes.
pub open spec fn submit_spec(entries: Seq<Seq<char>>, command: Seq<char>) -> Seq<Seq<char>> {
    if entries.len() + 1 <= HISTORY_CAP {
        entries.push(command)
    } else {
        entries.push(command).drop_first()
    }
}

/// A submission never grows the history past its cap.
pub proof fn lemma_history_bounded(entries: Seq<Seq<char>>, command: Seq<char>)
    requires
        entries.len() <= HISTORY_CAP,
    ensures
        submit_spec(entries, command).len() <= HISTORY_CAP,
{
}

/// The bounded command log and its recall cursor.
pub struct CommandHistory {
    entries: Vec<String>,
    cursor: Option<usize>,
}

impl CommandHistory {
    /// The commands held, oldest first.
    pub closed spec fn view_entries(&self) -> Seq<Seq<char>> {
        entry_views(self.entries@)
    }

    /// The recall position, or `None` when no recall is in progress.
    pub closed spec fn cursor_at(&self) -> Option<int> {
        match self.cursor {
            Some(i) => Some(i as int),
            None => None,
        }
    }

    /// The log never exceeds its cap and the cursor stays in bounds.
    pub closed spec fn wf(&self) -> bool {
        &&& self.entries@.len() <= HISTORY_CAP
        &&& (self.cursor matches Some(i) ==> (i as int) < self.entries@.len())
    }

    /// An empty history, with no recall in progress.
    pub fn new() -> (r: CommandHistory)
        ensures
            r.wf(),
            r.view_entries() == Seq::<Seq<char>>::empty(),
            r.cursor_at() is None,
    {
        let r = CommandHistory { entries: Vec::new(), cursor: None };
        proof {
            assert(r.view_entries() =~= Seq::<Seq<char>>::empty());
        }
        r
    }

    /// How many commands are held.
    pub fn len(&self) -> (n: usize)
        ensures
            n == self.view_entries().len(),
    {
        self.entries.len()
    }

    /// The command at position `i`, oldest first.
    pub fn entry_at(&self, i: usize) -> (r: &String)
        requires
            i < self.view_entries().len(),
        ensures
            r@ == self.view_entries()[i as int],
    {
        &self.entries[i]
    }

    /// Records a submitted command and leaves recall mode.
    ///
    /// The command is appended; if the log then exceeds its cap, the oldest
    /// entry is evicted. The cursor is always reset to `None`.
    pub fn submit(&mut self, command: String)
        requires
            old(self).wf(),
        ensures
            final(self).wf(),
            final(self).view_entries() == submit_spec(old(self).view_entries(), command@),
            final(self).cursor_at() is None,
    {
        let ghost pre = self.view_entries();
        self.entries.push(command);
        proof {
            assert(entry_views(self.entries@) =~= pre.push(command@));
        }
        if self.entries.len() > HISTORY_CAP {
            self.entries.remove(0);
            proof {
                assert(entry_views(self.entries@) =~= pre.push(command@).drop_first());
            }
        }
        self.cursor = None;
    }

    /// Steps the recall cursor toward older entries and returns the entry
    /// there.
    ///
    /// From rest the cursor lands on the newest entry; from a positive index
    /// it moves one entry older. With an empty history, or with the cursor
    /// already on the oldest entry, nothing changes and `None` comes back.
    pub fn recall_previous(&mut self) -> (r: Option<String>)
        requires
            old(self).wf(),
        ensures
            final(self).wf(),
            final(self).view_entries() == old(self).view_entries(),
            ({
                let n = old(self).view_entries().len() as int;
                match old(self).cursor_at() {
                    None => {
                        if n == 0 {
                            r is None && final(self).cursor_at() == old(self).cursor_at()
                        } else {
                            &&& final(self).cursor_at() == Some(n - 1)
                            &&& r matches Some(s) && s@ == old(self).view_entries()[n - 1]
                        }
                    },
                    Some(i) => {
                        if i > 0 {
                            &&& final(self).cursor_at() == Some(i - 1)
                            &&& r matches Some(s) && s@ == old(self).view_entries()[i - 1]
                        } else {
                            r is None && final(self).cursor_at() == old(self).cursor_at()
                        }
                    },
                }
            }),
    {
        if self.entries.len() == 0 {
            return None;
        }
        match self.cursor {
            None => {
                let idx = self.entries.len() - 1;
                self.cursor = Some(idx);
                Some(self.entries[idx].clone())
            },
            Some(idx) => {
                if idx > 0 {
                    self.cursor = Some(idx - 1);
                    Some(self.entries[idx - 1].clone())
                } else {
                    None
                }
            },
        }
    }

    /// Steps the recall cursor toward newer entries and returns the entry
    /// there.
    ///
    /// Past the newest entry the cursor resets to `None` and an empty command
    /// comes back, which clears the input line. At rest this is a no-op.
    pub fn recall_next(&mut self) -> (r: Option<String>)
        requires
            old(self).wf(),
        ensures
            final(self).wf(),
            final(self).view_entries() == old(self).view_entries(),
            ({
                let n = old(self).view_entries().len() as int;
                match old(self).cursor_at() {
                    None => r is None && final(self).cursor_at() == old(self).cursor_at(),
                    Some(i) => {
                        if i + 1 < n {
                            &&& final(self).cursor_at() == Some(i + 1)
                            &&& r matches Some(s) && s@ == old(self).view_entries()[i + 1]
                        } else {
                            &&& final(self).cursor_at() is None
                            &&& r matches Some(s) && s@ == Seq::<char>::empty()
                        }
                    },
                }
            }),
    {
        match self.cursor {
            None => None,
            Some(idx) => {
                if idx + 1 < self.entries.len() {
                    self.cursor = Some(idx + 1);
                    Some(self.entries[idx + 1].clone())
                } else {
                    self.cursor = None;
                    Some(String::new())
                }
            },
        }
    }
}

} // verus!

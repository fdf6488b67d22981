//! The bounded scrollback log of display lines.
//!
//! Arriving output fragments are cut at newline boundaries into display
//! lines. A fragment that does not end in a newline leaves its tail as an
//! in-progress line, which the next fragment continues. The buffer holds at
//! most [`SCROLLBACK_CAP`] lines; once the cap is exceeded, the oldest lines
//! are evicted first.

use vstd::prelude::*;

verus! {

/// The most lines the scrollback ever holds.
pub const SCROLLBACK_CAP: usize = 1000;

/// The mathematical view of a vector of lines.
pub open spec fn views(lines: Seq<String>) -> Seq<Seq<char>> {
    lines.map_values(|l: String| l@)
}

/// One step of line assembly: feeding the character `c` into the buffer
/// state `(lines, open)`, where `open` says whether the last line is still
/// in progress.
pub open spec fn feed_char(lines: Seq<Seq<char>>, open: bool, c: char) -> (Seq<Seq<char>>, bool) {
    if c == '\n' {
        if open {
            (lines, false)
        } else {
            (lines.push(Seq::empty()), false)
        }
    } else {
        if open {
            (lines.update(lines.len() - 1, lines.last().push(c)), true)
        } else {
            (lines.push(seq![c]), true)
        }
    }
}

/// Feeding a whole fragment, character by character.
pub open spec fn feed(lines: Seq<Seq<char>>, open: bool, frag: Seq<char>) -> (Seq<Seq<char>>, bool)
    decreases frag.len(),
{
    if frag.len() == 0 {
        (lines, open)
    } else {
        let stepped = feed_char(lines, open, frag[0]);
        feed(stepped.0, stepped.1, frag.drop_first())
    }
}

/// Dropping the oldest lines until at most [`SCROLLBACK_CAP`] remain.
pub open spec fn evict(lines: Seq<Seq<char>>) -> Seq<Seq<char>> {
    if lines.len() <= SCROLLBACK_CAP {
        lines
    } else {
        lines.skip(lines.len() - SCROLLBACK_CAP)
    }
}

/// The bounded, ordered log of display lines.
pub struct ScrollbackBuffer {
    lines: Vec<String>,
    open: bool,
}

impl ScrollbackBuffer {
    /// The lines currently held, as character sequences.
    pub closed spec fn view_lines(&self) -> Seq<Seq<char>> {
        views(self.lines@)
    }

    /// Whether the last line is still in progress (the fragment that produced
    /// it did not end in a newline).
    pub closed spec fn is_open(&self) -> bool {
        self.open
    }

    /// The buffer never exceeds its cap, and an in-progress line exists.
    pub closed spec fn wf(&self) -> bool {
        &&& self.lines@.len() <= SCROLLBACK_CAP
        &&& (self.open ==> self.lines@.len() >= 1)
    }

    /// An empty scrollback.
    pub fn new() -> (r: ScrollbackBuffer)
        ensures
            r.wf(),
            r.view_lines() == Seq::<Seq<char>>::empty(),
            !r.is_open(),
    {
        let r = ScrollbackBuffer { lines: Vec::new(), open: false };
        proof {
            assert(r.view_lines() =~= Seq::<Seq<char>>::empty());
        }
        r
    }

    /// How many lines are held.
    pub fn line_count(&self) -> (n: usize)
        ensures
            n == self.view_lines().len(),
    {
        self.lines.len()
    }

    /// The line at position `i`, oldest first.
    pub fn line_at(&self, i: usize) -> (r: &String)
        requires
            i < self.view_lines().len(),
        ensures
            r@ == self.view_lines()[i as int],
    {
        &self.lines[i]
    }

    /// All lines, oldest first.
    pub fn lines(&self) -> (r: &Vec<String>)
        ensures
            views(r@) == self.view_lines(),
    {
        &self.lines
    }

    /// Empties the buffer. Used for an explicit user-triggered reset only.
    pub fn clear(&mut self)
        ensures
            final(self).wf(),
            final(self).view_lines() == Seq::<Seq<char>>::empty(),
            !final(self).is_open(),
    {
        self.lines.clear();
        self.open = false;
        proof {
            assert(final(self).view_lines() =~= Seq::<Seq<char>>::empty());
        }
    }

    /// Drops lines from the front until the buffer is at or under the cap.
    fn evict_excess(&mut self)
        requires
            old(self).open ==> old(self).lines@.len() >= 1,
        ensures
            final(self).view_lines() == evict(old(self).view_lines()),
            final(self).open == old(self).open,
            final(self).wf(),
    {
        let ghost orig = self.lines@;
        while self.lines.len() > SCROLLBACK_CAP
            invariant
                self.lines@.len() <= orig.len(),
                self.lines@ =~= orig.skip(orig.len() - self.lines@.len()),
                orig.len() > SCROLLBACK_CAP ==> self.lines@.len() >= SCROLLBACK_CAP,
                orig.len() <= SCROLLBACK_CAP ==> self.lines@ =~= orig,
                self.open == old(self).open,
            decreases self.lines@.len(),
        {
            self.lines.remove(0);
            proof {
                assert(self.lines@ =~= orig.skip(orig.len() - self.lines@.len()));
            }
        }
        proof {
            if orig.len() <= SCROLLBACK_CAP {
                assert(self.lines@ =~= orig);
                assert(final(self).view_lines() =~= evict(views(orig)));
            } else {
                assert(self.lines@.len() == SCROLLBACK_CAP);
                assert(self.lines@ =~= orig.skip(orig.len() - SCROLLBACK_CAP));
                assert(views(orig).len() == orig.len());
                assert(final(self).view_lines() =~= views(orig).skip(
                    views(orig).len() - SCROLLBACK_CAP,
                ));
                assert(final(self).view_lines() =~= evict(views(orig)));
            }
        }
    }

    /// Appends a completed line of its own, closing any in-progress line.
    ///
    /// Used for diagnostics the controller itself produces; shell output goes
    /// through [`Self::append`].
    pub fn push_line(&mut self, line: String)
        requires
            old(self).wf(),
        ensures
            final(self).wf(),
            final(self).view_lines() == evict(old(self).view_lines().push(line@)),
            !final(self).is_open(),
    {
        self.open = false;
        self.lines.push(line);
        proof {
            assert(self.lines@ =~= old(self).lines@.push(line));
            assert(views(self.lines@) =~= old(self).view_lines().push(line@));
        }
        self.evict_excess();
    }

    /// Splits `fragment` at newline boundaries into the buffer.
    ///
    /// Every newline completes the current line; text after the last newline
    /// stays as an in-progress line that the next fragment will continue.
    /// When the cap is exceeded the oldest lines are evicted.
    pub fn append(&mut self, fragment: &str)
        requires
            old(self).wf(),
        ensures
            final(self).wf(),
            final(self).view_lines() == evict(
                feed(old(self).view_lines(), old(self).is_open(), fragment@).0,
            ),
            final(self).is_open() == feed(
                old(self).view_lines(),
                old(self).is_open(),
                fragment@,
            ).1,
    {
        let ghost fed = feed(old(self).view_lines(), old(self).is_open(), fragment@);
        let len = fragment.unicode_len();
        let mut i: usize = 0;
        proof {
            assert(fragment@.skip(0) =~= fragment@);
        }
        while i < len
            invariant
                i <= len,
                len == fragment@.len(),
                self.open ==> self.lines@.len() >= 1,
                feed(self.view_lines(), self.open, fragment@.skip(i as int)) == fed,
            decreases len - i,
        {
            let c = fragment.get_char(i);
            proof {
                assert(fragment@.skip(i as int)[0] == c);
                assert(fragment@.skip(i as int).drop_first() =~= fragment@.skip(i + 1));
            }
            let ghost pre = self.view_lines();
            let ghost pre_open = self.open;
            if c == '\n' {
                if self.open {
                    self.open = false;
                } else {
                    self.lines.push(String::new());
                    proof {
                        assert(self.view_lines() =~= pre.push(Seq::empty()));
                    }
                }
            } else {
                if self.open {
                    let mut last = self.lines.pop().unwrap();
                    last.push(c);
                    self.lines.push(last);
                    proof {
                        assert(self.view_lines() =~= pre.update(pre.len() - 1, pre.last().push(c)));
                    }
                } else {
                    let mut nl = String::new();
                    nl.push(c);
                    self.lines.push(nl);
                    self.open = true;
                    proof {
                        assert(nl@ =~= seq![c]);
                        assert(self.view_lines() =~= pre.push(seq![c]));
                    }
                }
            }
            proof {
                assert((self.view_lines(), self.open) == feed_char(pre, pre_open, c));
            }
            i = i + 1;
        }
        proof {
            assert(fragment@.skip(len as int) =~= Seq::<char>::empty());
        }
        self.evict_excess();
    }
}

/// Whatever arrives, the scrollback never exceeds its cap: the result of
/// feeding any fragment into any buffer state, after eviction, holds at most
/// [`SCROLLBACK_CAP`] lines.
pub proof fn lemma_scrollback_bounded(lines: Seq<Seq<char>>, open: bool, frag: Seq<char>)
    ensures
        evict(feed(lines, open, frag).0).len() <= SCROLLBACK_CAP,
{
}

/// Eviction drops the oldest lines first: what remains is exactly the
/// newest lines of the unevicted sequence, in their original order.
pub proof fn lemma_evict_keeps_newest(lines: Seq<Seq<char>>)
    ensures
        evict(lines).len() == if lines.len() <= SCROLLBACK_CAP {
            lines.len() as int
        } else {
            SCROLLBACK_CAP as int
        },
        forall|i: int|
            0 <= i < evict(lines).len() ==> evict(lines)[i] == lines[i + lines.len() - evict(
                lines,
            ).len()],
{
}

} // verus!

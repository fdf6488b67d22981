//! Removal of ANSI control sequences from raw terminal output.
//!
//! Shell output arrives as arbitrary text that may hold escape sequences for
//! color, cursor movement and other display effects. This module strips them
//! with a single-pass state machine, keeping only the plain text.

use vstd::prelude::*;

verus! {

/// The scanner's position within an escape sequence.
pub enum ScanState {
    /// Ordinary text: characters are kept.
    Normal,
    /// An escape character was just seen.
    Escape,
    /// Inside a control sequence introduced by `ESC [`: characters are
    /// discarded up to and including the terminating ASCII letter.
    Csi,
}

/// An ASCII letter ends a control sequence.
pub open spec fn is_csi_terminator(c: char) -> bool {
    (97 <= c as u32 && c as u32 <= 122) || (65 <= c as u32 && c as u32 <= 90)
}

/// What remains of `s` when scanning starts in state `st`.
///
/// In `Normal`, every character except the escape character is kept. The
/// escape character is always dropped; if `[` follows it, everything up to and
/// including the next ASCII letter is dropped as well, otherwise scanning
/// resumes with the following character.
pub open spec fn strip_from(st: ScanState, s: Seq<char>) -> Seq<char>
    decreases s.len(),
{
    if s.len() == 0 {
        Seq::empty()
    } else {
        let c = s[0];
        let rest = s.drop_first();
        match st {
            ScanState::Normal => {
                if c == '\u{1b}' {
                    strip_from(ScanState::Escape, rest)
                } else {
                    seq![c] + strip_from(ScanState::Normal, rest)
                }
            },
            ScanState::Escape => {
                if c == '[' {
                    strip_from(ScanState::Csi, rest)
                } else if c == '\u{1b}' {
                    strip_from(ScanState::Escape, rest)
                } else {
                    seq![c] + strip_from(ScanState::Normal, rest)
                }
            },
            ScanState::Csi => {
                if is_csi_terminator(c) {
                    strip_from(ScanState::Normal, rest)
                } else {
                    strip_from(ScanState::Csi, rest)
                }
            },
        }
    }
}

/// The sanitized form of `s`: `s` with its escape sequences removed.
pub open spec fn strip_spec(s: Seq<char>) -> Seq<char> {
    strip_from(ScanState::Normal, s)
}

/// Remove ANSI escape sequences from a fragment of terminal output.
pub fn strip_ansi_escapes(s: &str) -> (r: String)
    ensures
        r@ == strip_spec(s@),
{
    let len = s.unicode_len();
    let mut out = String::new();
    let mut st = ScanState::Normal;
    let mut i: usize = 0;
    proof {
        assert(s@.skip(0) =~= s@);
    }
    while i < len
        invariant
            i <= len,
            len == s@.len(),
            out@ + strip_from(st, s@.skip(i as int)) =~= strip_spec(s@),
        decreases len - i,
    {
        let c = s.get_char(i);
        proof {
            assert(s@.skip(i as int)[0] == c);
            assert(s@.skip(i as int).drop_first() =~= s@.skip(i + 1));
        }
        match st {
            ScanState::Normal => {
                if c == '\u{1b}' {
                    st = ScanState::Escape;
                } else {
                    out.push(c);
                    proof {
                        assert(out@ + strip_from(st, s@.skip(i + 1)) =~= strip_spec(s@));
                    }
                }
            },
            ScanState::Escape => {
                if c == '[' {
                    st = ScanState::Csi;
                } else if c == '\u{1b}' {
                    // stay in Escape
                } else {
                    out.push(c);
                    st = ScanState::Normal;
                    proof {
                        assert(out@ + strip_from(st, s@.skip(i + 1)) =~= strip_spec(s@));
                    }
                }
            },
            ScanState::Csi => {
                let u = c as u32;
                if (97 <= u && u <= 122) || (65 <= u && u <= 90) {
                    st = ScanState::Normal;
                } else {
                    // stay in Csi
                }
            },
        }
        i = i + 1;
    }
    proof {
        assert(s@.skip(len as int) =~= Seq::<char>::empty());
    }
    out
}

proof fn lemma_strip_from_len(st: ScanState, s: Seq<char>)
    ensures
        strip_from(st, s).len() <= s.len(),
    decreases s.len(),
{
    if s.len() > 0 {
        lemma_strip_from_len(ScanState::Normal, s.drop_first());
        lemma_strip_from_len(ScanState::Escape, s.drop_first());
        lemma_strip_from_len(ScanState::Csi, s.drop_first());
    }
}

/// Holds when a fragment has no escape character in it.
pub open spec fn escape_free(s: Seq<char>) -> bool {
    forall|i: int| 0 <= i < s.len() ==> s[i] != '\u{1b}'
}

proof fn lemma_strip_from_no_escape(st: ScanState, s: Seq<char>)
    ensures
        escape_free(strip_from(st, s)),
    decreases s.len(),
{
    if s.len() > 0 {
        lemma_strip_from_no_escape(ScanState::Normal, s.drop_first());
        lemma_strip_from_no_escape(ScanState::Escape, s.drop_first());
        lemma_strip_from_no_escape(ScanState::Csi, s.drop_first());
        let c = s[0];
        let tail = strip_from(ScanState::Normal, s.drop_first());
        let kept = (match st {
            ScanState::Normal => c != '\u{1b}',
            ScanState::Escape => c != '[' && c != '\u{1b}',
            ScanState::Csi => false,
        });
        if kept {
            assert(strip_from(st, s) == seq![c] + tail);
            assert forall|i: int| 0 <= i < (seq![c] + tail).len() implies (seq![c] + tail)[i]
                != '\u{1b}' by {
                if i > 0 {
                    assert((seq![c] + tail)[i] == tail[i - 1]);
                } else {
                    assert((seq![c] + tail)[0] == c);
                }
            }
            assert(escape_free(seq![c] + tail));
        }
    }
}

/// Sanitizing never lengthens a fragment: for every input, the output holds
/// at most as many characters as the input.
pub proof fn lemma_sanitize_shrinks(s: Seq<char>)
    ensures
        strip_spec(s).len() <= s.len(),
{
    lemma_strip_from_len(ScanState::Normal, s);
}

/// The sanitized output never holds the escape character.
pub proof fn lemma_sanitize_no_escape(s: Seq<char>)
    ensures
        escape_free(strip_spec(s)),
{
    lemma_strip_from_no_escape(ScanState::Normal, s);
}

/// A fragment without the escape character is left exactly as it was.
pub proof fn lemma_sanitize_clean_identity(s: Seq<char>)
    requires
        escape_free(s),
    ensures
        strip_spec(s) == s,
    decreases s.len(),
{
    if s.len() > 0 {
        assert(forall|i: int|
            0 <= i < s.drop_first().len() ==> s.drop_first()[i] != '\u{1b}');
        lemma_sanitize_clean_identity(s.drop_first());
        assert(strip_spec(s) =~= s);
    }
}

} // verus!

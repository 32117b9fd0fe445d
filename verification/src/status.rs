//! The self-overwriting line that shows how long the child has been running.
//!
//! Nothing here writes anything: each operation returns the text that the
//! caller is to write to the terminal and flush. Where the destination is no
//! terminal that text is empty.

use crate::text::{is_decimal_digit, lemma_decimal_is_digits, padded2, push_char, push_padded2};
use crate::format::{default_pieces, render, PieceView};
use vstd::prelude::*;
use vstd::string::StringExecFns;

verus! {

/// What erases the status line: carriage return, then the control sequence
/// that erases to the end of the line.
pub open spec fn clear_sequence() -> Seq<char> {
    seq!['\r', '\x1B', '[', 'K']
}

/// The status line for an elapsed time of `secs` seconds: hours, minutes and
/// seconds in two digits each. The hours are not cut off at a day or at a
/// hundred.
pub open spec fn status_text(secs: nat) -> Seq<char> {
    "Elapsed: "@ + padded2(secs / 3600) + seq![':'] + padded2(secs / 60 % 60) + seq![':']
        + padded2(secs % 60)
}

/// The time from `start` to `now` on a clock that does not run backwards.
pub open spec fn elapsed_between(start: u64, now: u64) -> nat {
    if now >= start {
        (now - start) as nat
    } else {
        0
    }
}

/// Whether there is a status line, decided once when the run begins.
#[derive(Clone, Copy, Debug, PartialEq, Eq)]
pub enum StatusLine {
    /// The destination is a terminal; the run began at `start`, in seconds
    /// of the caller's clock.
    Active { start: u64 },
    /// The destination is no terminal: nothing is ever written.
    Inactive,
}

impl StatusLine {
    /// What a print writes at time `now`, with a line break behind it where
    /// `nl` is set.
    pub open spec fn printed(&self, now: u64, nl: bool) -> Seq<char> {
        match self {
            StatusLine::Active { start } => status_text(elapsed_between(*start, now)) + if nl {
                seq!['\n']
            } else {
                Seq::empty()
            },
            StatusLine::Inactive => Seq::empty(),
        }
    }

    /// The status line of a run that begins at `start`, for a destination
    /// that is a terminal or not.
    pub fn new(is_terminal: bool, start: u64) -> (line: StatusLine)
        ensures
            line == if is_terminal {
                StatusLine::Active { start }
            } else {
                StatusLine::Inactive
            },
    {
        if is_terminal {
            StatusLine::Active { start }
        } else {
            StatusLine::Inactive
        }
    }

    /// What to write to erase the status line.
    pub fn clear(&self) -> (text: String)
        ensures
            text@ == if self is Active {
                clear_sequence()
            } else {
                Seq::empty()
            },
    {
        let mut text = String::new();
        if let StatusLine::Active { .. } = self {
            push_char(&mut text, '\r');
            push_char(&mut text, '\x1B');
            push_char(&mut text, '[');
            push_char(&mut text, 'K');
            assert(text@ =~= clear_sequence());
        }
        text
    }

    /// What to write to show the time elapsed at `now`.
    pub fn print(&self, now: u64) -> (text: String)
        ensures
            text@ == self.printed(now, false),
    {
        self.inner_print(now, false)
    }

    /// What to write to leave the time elapsed at `now` behind on a line of
    /// its own.
    pub fn print_total(&self, now: u64) -> (text: String)
        ensures
            text@ == self.printed(now, true),
    {
        self.inner_print(now, true)
    }

    /// What to write to show the time elapsed at `now`, followed by a line
    /// break where `nl` is set.
    pub fn inner_print(&self, now: u64, nl: bool) -> (text: String)
        ensures
            text@ == self.printed(now, nl),
    {
        match self {
            StatusLine::Active { start } => {
                let secs: u64 = if now >= *start {
                    now - *start
                } else {
                    0
                };
                let mut text = String::from_str("Elapsed: ");
                push_padded2(&mut text, secs / 3600);
                push_char(&mut text, ':');
                push_padded2(&mut text, secs / 60 % 60);
                push_char(&mut text, ':');
                push_padded2(&mut text, secs % 60);
                assert(text@ =~= status_text(secs as nat));
                if nl {
                    push_char(&mut text, '\n');
                }
                assert(text@ =~= self.printed(now, nl));
                text
            },
            StatusLine::Inactive => String::new(),
        }
    }
}

/// A status line whose destination is no terminal never writes anything.
pub proof fn lemma_inactive_is_silent(line: StatusLine, now: u64, nl: bool)
    requires
        line is Inactive,
    ensures
        line.printed(now, nl).len() == 0,
{
}

/// The status line is what the default template renders, whatever the
/// fraction of the second.
pub proof fn lemma_default_format_is_status_text(secs: nat, nanos: nat)
    ensures
        render(default_pieces(), secs, nanos) == status_text(secs),
{
    reveal_strlit(":");
    let all = default_pieces();
    assert(all.len() == 6);
    let upto5 = all.drop_last();
    let upto4 = upto5.drop_last();
    let upto3 = upto4.drop_last();
    let upto2 = upto3.drop_last();
    let upto1 = upto2.drop_last();
    let upto0 = upto1.drop_last();
    assert(upto0 =~= Seq::<PieceView>::empty());
    assert(render(upto0, secs, nanos) =~= Seq::<char>::empty());
    assert(render(upto1, secs, nanos) =~= "Elapsed: "@);
    assert(render(upto2, secs, nanos) == render(upto1, secs, nanos) + padded2(secs / 3600));
    assert(render(upto3, secs, nanos) == render(upto2, secs, nanos) + ":"@);
    assert(render(upto4, secs, nanos) == render(upto3, secs, nanos) + padded2(secs / 60 % 60));
    assert(render(upto5, secs, nanos) == render(upto4, secs, nanos) + ":"@);
    assert(render(all, secs, nanos) == render(upto5, secs, nanos) + padded2(secs % 60));
    assert(":"@ =~= seq![':']);
    assert(render(all, secs, nanos) =~= status_text(secs));
}

/// `c` is a printable character of ASCII.
pub open spec fn is_plain(c: char) -> bool {
    32 <= c as u32 && (c as u32) < 127
}

/// The text of the status line holds no control character: erasing the line
/// is left to [`StatusLine::clear`].
pub proof fn lemma_status_text_is_plain(secs: nat)
    ensures
        forall|i: int|
            0 <= i < status_text(secs).len() ==> is_plain(#[trigger] status_text(secs)[i]),
{
    reveal_strlit("Elapsed: ");
    lemma_padded2_is_digits(secs / 3600);
    lemma_padded2_is_digits(secs / 60 % 60);
    lemma_padded2_is_digits(secs % 60);
}

proof fn lemma_padded2_is_digits(n: nat)
    ensures
        padded2(n).len() >= 2,
        forall|i: int| 0 <= i < padded2(n).len() ==> is_decimal_digit(#[trigger] padded2(n)[i]),
{
    lemma_decimal_is_digits(n);
}

} // verus!

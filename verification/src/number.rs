//! Numbering the lines of a stream, as the concatenating tool prints them.
//!
//! Each line is printed without its ending and with a newline after it. A
//! numbered line has its number before it, right-justified in six bytes and
//! followed by a tab. Numbers begin at one for each stream.

use crate::lines::{
    at_line_start, find_line_end, is_line, lemma_line_end, lemma_lines_concat, lemma_newlines_concat,
    lemma_newlines_none, lemma_one_line, line_count, line_end, newlines, CARRIAGE_RETURN, NEWLINE,
};
use crate::render::{
    lemma_decimal_digits, push_all, push_right_justified, right_justified,
};
use vstd::prelude::*;
use vstd::slice::slice_subrange;

verus! {

/// The width of the field that holds a line's number.
pub const NUMBER_WIDTH: usize = 6;

/// The tab between a line's number and the line.
pub const TAB: u8 = 0x09;

/// Which lines get a number.
#[derive(Debug, Clone, Copy, PartialEq, Eq, Structural)]
pub enum Numbering {
    /// No line.
    Off,
    /// Every line.
    All,
    /// Every line that is not blank.
    NonBlank,
}

/// The length of `line` without its ending: a newline, or a carriage return
/// and a newline.
pub open spec fn body_len(line: Seq<u8>) -> int {
    let n = line.len() as int;
    if n >= 1 && line[n - 1] == NEWLINE {
        if n >= 2 && line[n - 2] == CARRIAGE_RETURN {
            n - 2
        } else {
            n - 1
        }
    } else {
        n
    }
}

/// `line` without its ending.
pub open spec fn body(line: Seq<u8>) -> Seq<u8> {
    line.take(body_len(line))
}

/// Whether a line with the body `text` gets a number. A blank line is one
/// whose body is empty.
pub open spec fn gets_number(mode: Numbering, text: Seq<u8>) -> bool {
    mode == Numbering::All || (mode == Numbering::NonBlank && text.len() > 0)
}

/// What is printed for a line with the body `text`, after `before` lines
/// were numbered.
pub open spec fn printed_line(mode: Numbering, before: nat, text: Seq<u8>) -> Seq<u8> {
    if gets_number(mode, text) {
        right_justified(before + 1, NUMBER_WIDTH as nat) + seq![TAB] + text + seq![NEWLINE]
    } else {
        text + seq![NEWLINE]
    }
}

/// How many lines were numbered after a line with the body `text`.
pub open spec fn numbered_after(mode: Numbering, before: nat, text: Seq<u8>) -> nat {
    if gets_number(mode, text) {
        before + 1
    } else {
        before
    }
}

/// What is printed for the lines of `s` from `start` on, after `before`
/// lines were numbered.
pub open spec fn printed_from(s: Seq<u8>, start: int, mode: Numbering, before: nat) -> Seq<u8>
    decreases s.len() - start,
{
    if 0 <= start < s.len() {
        proof {
            lemma_line_end(s, start);
        }
        let end = line_end(s, start);
        let text = body(s.subrange(start, end));
        printed_line(mode, before, text) + printed_from(
            s,
            end,
            mode,
            numbered_after(mode, before, text),
        )
    } else {
        Seq::empty()
    }
}

/// What is printed for the stream `s`.
pub open spec fn printed(s: Seq<u8>, mode: Numbering) -> Seq<u8> {
    printed_from(s, 0, mode, 0)
}

proof fn lemma_printed_line(mode: Numbering, before: nat, line: Seq<u8>)
    requires
        is_line(line),
    ensures
        newlines(printed_line(mode, before, body(line))) == 1,
        printed_line(mode, before, body(line)).last() == NEWLINE,
{
    let text = body(line);
    let end = seq![NEWLINE];
    assert(newlines(end) == 1) by {
        reveal_with_fuel(newlines, 2);
    }
    lemma_newlines_none(text);
    if gets_number(mode, text) {
        let number = right_justified(before + 1, NUMBER_WIDTH as nat) + seq![TAB];
        lemma_decimal_digits(before + 1);
        lemma_newlines_none(number);
        lemma_newlines_concat(number, text);
        lemma_newlines_concat(number + text, end);
    } else {
        lemma_newlines_concat(text, end);
    }
}

proof fn lemma_printed_from(s: Seq<u8>, start: int, mode: Numbering, before: nat)
    requires
        0 <= start <= s.len(),
    ensures
        newlines(printed_from(s, start, mode, before)) == line_count(s.skip(start)),
        at_line_start(printed_from(s, start, mode, before)),
    decreases s.len() - start,
{
    if start < s.len() {
        lemma_line_end(s, start);
        let end = line_end(s, start);
        let line = s.subrange(start, end);
        let first = printed_line(mode, before, body(line));
        let then = numbered_after(mode, before, body(line));
        let rest = printed_from(s, end, mode, then);
        lemma_printed_line(mode, before, line);
        lemma_printed_from(s, end, mode, then);
        lemma_newlines_concat(first, rest);
        lemma_one_line(line);
        lemma_lines_concat(line, s.skip(end));
        assert(line + s.skip(end) =~= s.skip(start));
    }
}

/// What is printed has one line for each line of the stream, and ends its
/// last line.
pub proof fn lemma_printed_lines(s: Seq<u8>, mode: Numbering)
    ensures
        line_count(printed(s, mode)) == line_count(s),
        at_line_start(printed(s, mode)),
{
    lemma_printed_from(s, 0, mode, 0);
    assert(s.skip(0) =~= s);
}

/// Whether every line of `s` ends with a newline that has no carriage
/// return before it.
pub open spec fn is_plain(s: Seq<u8>) -> bool {
    &&& at_line_start(s)
    &&& forall|j: int| 0 < j < s.len() && #[trigger] s[j] == NEWLINE ==> s[j - 1] != CARRIAGE_RETURN
}

proof fn lemma_plain_from(s: Seq<u8>, start: int, before: nat)
    requires
        is_plain(s),
        0 <= start <= s.len(),
    ensures
        printed_from(s, start, Numbering::Off, before) == s.skip(start),
    decreases s.len() - start,
{
    if start < s.len() {
        lemma_line_end(s, start);
        let end = line_end(s, start);
        let line = s.subrange(start, end);
        assert(line.last() == s[end - 1]);
        if line.len() >= 2 {
            assert(line[line.len() - 2] == s[end - 2]);
        }
        assert(body(line) + seq![NEWLINE] =~= line);
        lemma_plain_from(s, end, before);
        assert(line + s.skip(end) =~= s.skip(start));
    }
}

/// Without numbers, a stream whose lines all end with a bare newline is
/// printed as it stands.
pub proof fn lemma_plain_unchanged(s: Seq<u8>)
    requires
        is_plain(s),
    ensures
        printed(s, Numbering::Off) == s,
{
    lemma_plain_from(s, 0, 0);
    assert(s.skip(0) =~= s);
}

/// Gives `line` without its ending.
pub fn strip_ending(line: &[u8]) -> (text: &[u8])
    ensures
        text@ == body(line@),
{
    let n = line.len();
    let keep = if n >= 1 && line[n - 1] == NEWLINE {
        if n >= 2 && line[n - 2] == CARRIAGE_RETURN {
            n - 2
        } else {
            n - 1
        }
    } else {
        n
    };
    slice_subrange(line, 0, keep)
}

/// The numbering of one stream as it goes on.
#[derive(Debug, Clone, Copy, PartialEq, Eq, Structural)]
pub struct Numberer {
    /// Which lines get a number.
    pub mode: Numbering,
    /// How many lines have been numbered.
    pub numbered: usize,
}

impl Numberer {
    /// The numbering at the start of a stream.
    pub fn new(mode: Numbering) -> (r: Numberer)
        ensures
            r.mode == mode,
            r.numbered == 0,
    {
        Numberer { mode, numbered: 0 }
    }

    /// Takes the next line of the stream, with or without its ending, and
    /// gives what is printed for it. Gives `None`, and changes nothing, where
    /// the line's number does not fit.
    pub fn print_line(&mut self, line: &[u8]) -> (r: Option<Vec<u8>>)
        ensures
            final(self).mode == old(self).mode,
            ({
                let mode = old(self).mode;
                let before = old(self).numbered as nat;
                let after = numbered_after(mode, before, body(line@));
                match r {
                    Some(out) => {
                        &&& after <= usize::MAX
                        &&& final(self).numbered == after
                        &&& out@ == printed_line(mode, before, body(line@))
                    },
                    None => after > usize::MAX && final(self).numbered == before,
                }
            }),
    {
        let text = strip_ending(line);
        if self.numbered == usize::MAX && wants_number(self.mode, text) {
            return None;
        }
        let mut out: Vec<u8> = Vec::new();
        self.numbered = push_line(&mut out, self.mode, self.numbered, text);
        Some(out)
    }
}

/// Tells whether a line with the body `text` gets a number.
fn wants_number(mode: Numbering, text: &[u8]) -> (r: bool)
    ensures
        r == gets_number(mode, text@),
{
    match mode {
        Numbering::Off => false,
        Numbering::All => true,
        Numbering::NonBlank => text.len() > 0,
    }
}

/// Appends what is printed for a line with the body `text` to `out`, and
/// gives the number of lines that are numbered after it.
fn push_line(out: &mut Vec<u8>, mode: Numbering, before: usize, text: &[u8]) -> (after: usize)
    requires
        numbered_after(mode, before as nat, text@) <= usize::MAX,
    ensures
        final(out)@ == old(out)@ + printed_line(mode, before as nat, text@),
        after == numbered_after(mode, before as nat, text@),
{
    let mut after = before;
    if wants_number(mode, text) {
        after = before + 1;
        push_right_justified(out, after, NUMBER_WIDTH);
        out.push(TAB);
    }
    push_all(out, text);
    out.push(NEWLINE);
    after
}

/// Prints the stream `input` with its lines numbered as `mode` says.
pub fn number_lines(input: &[u8], mode: Numbering) -> (out: Vec<u8>)
    ensures
        out@ == printed(input@, mode),
{
    let n = input.len();
    let mut out: Vec<u8> = Vec::new();
    let mut numbered: usize = 0;
    let mut start: usize = 0;
    while start < n
        invariant
            n == input.len(),
            start <= n,
            numbered <= start,
            printed(input@, mode) == out@ + printed_from(input@, start as int, mode, numbered as nat),
        decreases n - start,
    {
        let end = find_line_end(input, start);
        let text = strip_ending(slice_subrange(input, start, end));
        proof {
            lemma_line_end(input@, start as int);
        }
        numbered = push_line(&mut out, mode, numbered, text);
        start = end;
    }
    out
}

} // verus!

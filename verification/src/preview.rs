//! The head of a stream: its first lines, or its first bytes.

use crate::lines::{
    find_line_end, lemma_line_end, lemma_lines_concat, lemma_one_line, line_count, line_end,
    NEWLINE,
};
use crate::render::push_all;
use vstd::prelude::*;
use vstd::slice::slice_subrange;
use vstd::string::StringSliceAdditionalSpecFns;

verus! {

/// How much of a stream a preview shows.
#[derive(Debug, Clone, Copy, PartialEq, Eq, Structural)]
pub enum Limit {
    /// This many lines.
    Lines(u64),
    /// This many bytes.
    Bytes(u64),
}

/// The position in `s` after `limit` lines that begin at `start`, or the end
/// of `s` where it has fewer.
pub open spec fn after_lines(s: Seq<u8>, start: int, limit: nat) -> int
    decreases limit,
{
    if limit == 0 || !(0 <= start < s.len()) {
        start
    } else {
        after_lines(s, line_end(s, start), (limit - 1) as nat)
    }
}

/// The first `limit` lines of `s`, each with its ending.
pub open spec fn first_lines(s: Seq<u8>, limit: nat) -> Seq<u8> {
    s.take(after_lines(s, 0, limit))
}

/// The first `limit` bytes of `s`, or all of `s` where it has fewer.
pub open spec fn first_bytes(s: Seq<u8>, limit: nat) -> Seq<u8> {
    if limit < s.len() {
        s.take(limit as int)
    } else {
        s
    }
}

/// What the preview of `s` shows: its first lines or its first bytes, as
/// they stand.
pub open spec fn head_of(s: Seq<u8>, limit: Limit) -> Seq<u8> {
    match limit {
        Limit::Lines(n) => first_lines(s, n as nat),
        Limit::Bytes(n) => first_bytes(s, n as nat),
    }
}

/// `after_lines` stays inside the stream and does not go back.
pub proof fn lemma_after_lines(s: Seq<u8>, start: int, limit: nat)
    requires
        0 <= start <= s.len(),
    ensures
        start <= after_lines(s, start, limit) <= s.len(),
    decreases limit,
{
    if limit > 0 && start < s.len() {
        lemma_line_end(s, start);
        lemma_after_lines(s, line_end(s, start), (limit - 1) as nat);
    }
}

proof fn lemma_lines_from(s: Seq<u8>, start: int, limit: nat)
    requires
        0 <= start <= s.len(),
    ensures
        line_count(s.subrange(start, after_lines(s, start, limit))) == if limit < line_count(
            s.skip(start),
        ) {
            limit
        } else {
            line_count(s.skip(start))
        },
    decreases limit,
{
    if limit > 0 && start < s.len() {
        let mid = line_end(s, start);
        lemma_line_end(s, start);
        lemma_after_lines(s, mid, (limit - 1) as nat);
        let end = after_lines(s, mid, (limit - 1) as nat);
        let first = s.subrange(start, mid);
        lemma_one_line(first);
        lemma_lines_concat(first, s.subrange(mid, end));
        assert(first + s.subrange(mid, end) =~= s.subrange(start, end));
        lemma_lines_concat(first, s.skip(mid));
        assert(first + s.skip(mid) =~= s.skip(start));
        lemma_lines_from(s, mid, (limit - 1) as nat);
    }
}

/// The first `limit` lines are `limit` lines, or all the lines that the
/// stream has where those are fewer.
pub proof fn lemma_first_lines_count(s: Seq<u8>, limit: nat)
    ensures
        line_count(first_lines(s, limit)) == if limit < line_count(s) {
            limit
        } else {
            line_count(s)
        },
{
    lemma_lines_from(s, 0, limit);
    lemma_after_lines(s, 0, limit);
    assert(s.skip(0) =~= s);
}

/// A preview by bytes shows exactly as many bytes as the limit says, or all
/// that the stream has where those are fewer: the first ones, with nothing
/// added and nothing left out, wherever in a line or in a character that
/// ends.
pub proof fn lemma_first_bytes(s: Seq<u8>, limit: nat)
    ensures
        first_bytes(s, limit).len() == if limit < s.len() {
            limit
        } else {
            s.len()
        },
        first_bytes(s, limit) == s.take(first_bytes(s, limit).len() as int),
{
}

/// Gives the first `limit` lines of `input`: the lines that a preview by
/// lines accepts when it is given the stream line by line.
pub fn head_lines(input: &[u8], limit: u64) -> (head: &[u8])
    ensures
        head@ == first_lines(input@, limit as nat),
{
    let n = input.len();
    let mut wanted = LineLimit::new(limit);
    let mut end: usize = 0;
    loop
        invariant
            n == input.len(),
            end <= n,
            wanted.limit == limit,
            wanted.taken <= limit,
            after_lines(input@, 0, limit as nat) == after_lines(
                input@,
                end as int,
                (limit - wanted.taken) as nat,
            ),
        ensures
            end <= n,
            after_lines(input@, 0, limit as nat) == end,
        decreases n - end,
    {
        let next = find_line_end(input, end);
        proof {
            if end < n {
                lemma_line_end(input@, end as int);
            }
        }
        if !wanted.accept(slice_subrange(input, end, next)) {
            break;
        }
        end = next;
    }
    slice_subrange(input, 0, end)
}

/// How far a preview by lines has come.
#[derive(Debug, Clone, Copy, PartialEq, Eq, Structural)]
pub struct LineLimit {
    /// How many lines are wanted.
    pub limit: u64,
    /// How many lines have been taken.
    pub taken: u64,
}

impl LineLimit {
    /// A preview of `limit` lines, of which none is taken yet.
    pub fn new(limit: u64) -> (r: LineLimit)
        ensures
            r.limit == limit,
            r.taken == 0,
    {
        LineLimit { limit, taken: 0 }
    }

    /// Decides on the line that a read gave: `true` where it belongs to the
    /// preview and is to be printed, `false` where the preview is over,
    /// because it is full or because the read gave nothing.
    pub fn accept(&mut self, read: &[u8]) -> (r: bool)
        ensures
            r == (old(self).taken < old(self).limit && read@.len() > 0),
            final(self).limit == old(self).limit,
            final(self).taken == if r {
                old(self).taken + 1
            } else {
                old(self).taken as int
            },
    {
        if self.taken < self.limit && read.len() > 0 {
            self.taken = self.taken + 1;
            true
        } else {
            false
        }
    }
}

/// Gives the first `limit` bytes of `input` as they stand, or all of
/// `input` where it has fewer. The limit may fall inside a line or inside a
/// character.
pub fn head_bytes(input: &[u8], limit: u64) -> (head: &[u8])
    ensures
        head@ == first_bytes(input@, limit as nat),
{
    let n = input.len();
    if limit < n as u64 {
        slice_subrange(input, 0, limit as usize)
    } else {
        input
    }
}

/// Gives what the preview of `input` shows.
pub fn head(input: &[u8], limit: Limit) -> (out: &[u8])
    ensures
        out@ == head_of(input@, limit),
{
    match limit {
        Limit::Lines(n) => head_lines(input, n),
        Limit::Bytes(n) => head_bytes(input, n),
    }
}

/// What opens a banner.
pub open spec fn banner_open() -> Seq<u8> {
    "==> ".spec_bytes()
}

/// What closes a banner.
pub open spec fn banner_close() -> Seq<u8> {
    " <==".spec_bytes()
}

/// The banner before the stream called `name`, the `index`-th of `files`
/// streams that were asked for, counted from zero. One stream alone has no
/// banner; an empty line parts a banner from the stream before it.
pub open spec fn banner_text(name: Seq<u8>, index: nat, files: nat) -> Seq<u8> {
    if files <= 1 {
        Seq::empty()
    } else {
        let lead = if index > 0 {
            seq![NEWLINE]
        } else {
            Seq::empty()
        };
        lead + banner_open() + name + banner_close() + seq![NEWLINE]
    }
}

/// Gives the banner before a stream.
pub fn banner(name: &str, index: usize, files: usize) -> (out: Vec<u8>)
    ensures
        out@ == banner_text(name.spec_bytes(), index as nat, files as nat),
{
    let mut out: Vec<u8> = Vec::new();
    if files > 1 {
        if index > 0 {
            out.push(NEWLINE);
        }
        push_all(&mut out, "==> ".as_bytes());
        push_all(&mut out, name.as_bytes());
        push_all(&mut out, " <==".as_bytes());
        out.push(NEWLINE);
    }
    out
}

} // verus!

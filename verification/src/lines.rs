//! Lines of a byte stream.
//!
//! A line ends with the newline byte, which belongs to it, or with the end of
//! the stream. The stream `a\nb` has two lines, `a\n` and `b`; the empty
//! stream has none.

use vstd::prelude::*;

verus! {

/// The byte that ends a line.
pub const NEWLINE: u8 = 0x0A;

/// The byte that may stand before the newline as part of the line ending.
pub const CARRIAGE_RETURN: u8 = 0x0D;

/// The number of newline bytes in `s`.
pub open spec fn newlines(s: Seq<u8>) -> nat
    decreases s.len(),
{
    if s.len() == 0 {
        0
    } else {
        newlines(s.drop_last()) + if s.last() == NEWLINE {
            1nat
        } else {
            0nat
        }
    }
}

/// Whether what follows `s` in a stream begins a new line: `s` is empty or
/// ends with a newline.
pub open spec fn at_line_start(s: Seq<u8>) -> bool {
    s.len() == 0 || s.last() == NEWLINE
}

/// The number of lines in `s`: one for each newline, and one more for what
/// follows the last newline, if anything does.
pub open spec fn line_count(s: Seq<u8>) -> nat {
    newlines(s) + if at_line_start(s) {
        0nat
    } else {
        1nat
    }
}

/// The position after the line that begins at `start`: after the first
/// newline at or after `start`, or the end of `s` where there is none.
pub open spec fn line_end(s: Seq<u8>, start: int) -> int
    decreases s.len() - start,
{
    if start < 0 || start >= s.len() {
        s.len() as int
    } else if s[start] == NEWLINE {
        start + 1
    } else {
        line_end(s, start + 1)
    }
}

/// Whether `s` is one line: not empty, with no newline but at its end.
pub open spec fn is_line(s: Seq<u8>) -> bool {
    &&& s.len() > 0
    &&& forall|j: int| 0 <= j < s.len() - 1 ==> s[j] != NEWLINE
}

/// What `line_end` finds: a non-empty stretch with no newline before its
/// last byte, which ends with a newline or at the end of `s`.
pub proof fn lemma_line_end(s: Seq<u8>, start: int)
    requires
        0 <= start < s.len(),
    ensures
        start < line_end(s, start) <= s.len(),
        forall|j: int| start <= j < line_end(s, start) - 1 ==> s[j] != NEWLINE,
        s[line_end(s, start) - 1] == NEWLINE || line_end(s, start) == s.len(),
        is_line(s.subrange(start, line_end(s, start))),
    decreases s.len() - start,
{
    if s[start] != NEWLINE {
        if start + 1 < s.len() {
            lemma_line_end(s, start + 1);
        } else {
            assert(line_end(s, start + 1) == s.len());
        }
    }
}

/// Newlines add up over concatenation.
pub proof fn lemma_newlines_concat(a: Seq<u8>, b: Seq<u8>)
    ensures
        newlines(a + b) == newlines(a) + newlines(b),
    decreases b.len(),
{
    if b.len() > 0 {
        lemma_newlines_concat(a, b.drop_last());
        assert((a + b).drop_last() =~= a + b.drop_last());
    }
}

/// A stretch without newlines counts none.
pub proof fn lemma_newlines_none(s: Seq<u8>)
    requires
        forall|j: int| 0 <= j < s.len() ==> s[j] != NEWLINE,
    ensures
        newlines(s) == 0,
    decreases s.len(),
{
    if s.len() > 0 {
        lemma_newlines_none(s.drop_last());
    }
}

/// One line counts as one.
pub proof fn lemma_one_line(s: Seq<u8>)
    requires
        is_line(s),
    ensures
        line_count(s) == 1,
{
    lemma_newlines_none(s.drop_last());
}

/// There are no more lines than bytes.
pub proof fn lemma_lines_bound(s: Seq<u8>)
    ensures
        newlines(s) <= s.len(),
        line_count(s) <= s.len(),
    decreases s.len(),
{
    if s.len() > 0 {
        lemma_lines_bound(s.drop_last());
    }
}

/// Lines add up over concatenation exactly where the first part is empty or
/// ends its last line, or the second part is empty.
pub proof fn lemma_lines_concat(a: Seq<u8>, b: Seq<u8>)
    ensures
        line_count(a + b) == line_count(a) + line_count(b) <==> at_line_start(a) || b.len() == 0,
{
    lemma_newlines_concat(a, b);
    if b.len() == 0 {
        assert(a + b =~= a);
    }
}

/// Finds the end of the line that begins at `start`.
pub fn find_line_end(bytes: &[u8], start: usize) -> (end: usize)
    ensures
        end == line_end(bytes@, start as int),
        start < bytes.len() ==> start < end <= bytes.len(),
{
    let n = bytes.len();
    if start >= n {
        return n;
    }
    let mut i = start;
    while i < n && bytes[i] != NEWLINE
        invariant
            start <= i <= n,
            n == bytes.len(),
            line_end(bytes@, i as int) == line_end(bytes@, start as int),
        decreases n - i,
    {
        i += 1;
    }
    if i < n {
        i + 1
    } else {
        n
    }
}

} // verus!

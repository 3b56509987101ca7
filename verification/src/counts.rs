//! Counting the lines, words, bytes and characters of a stream.
//!
//! [`count`] counts a stream that is held in memory. A stream that is read
//! piece by piece is counted with [`tally`], one call for each read.
//! [`lemma_counts_additive`] is what makes the two agree.

use crate::lines::{
    at_line_start, find_line_end, is_line, lemma_line_end, lemma_lines_bound, lemma_lines_concat,
    lemma_newlines_concat, lemma_one_line, line_count,
};
use crate::lossy::{
    decode_from, decode_lossy, lemma_decode_concat, lemma_decode_last_ascii, lemma_decode_len,
    lemma_no_replacement, lemma_step, step_at,
};
use crate::utf8::lemma_decode_of_text;
use crate::words::{
    all_whitespace, is_space, is_whitespace, lemma_words_around_gap, lemma_words_bound,
    lemma_words_concat, word_count, words_upto,
};
use vstd::prelude::*;
use vstd::slice::slice_subrange;
use vstd::utf8::encode_utf8;

verus! {

/// The four counts of a stream, as numbers without bound.
pub struct Counts {
    /// The number of lines.
    pub lines: nat,
    /// The number of words.
    pub words: nat,
    /// The number of bytes.
    pub bytes: nat,
    /// The number of characters.
    pub chars: nat,
}

impl Counts {
    /// The counts of the empty stream.
    pub open spec fn zero() -> Counts {
        Counts { lines: 0, words: 0, bytes: 0, chars: 0 }
    }

    /// The sum, count by count.
    pub open spec fn plus(self, other: Counts) -> Counts {
        Counts {
            lines: self.lines + other.lines,
            words: self.words + other.words,
            bytes: self.bytes + other.bytes,
            chars: self.chars + other.chars,
        }
    }

    /// What holds of the counts of every stream, and of every sum of them:
    /// there are no more characters than bytes.
    pub open spec fn is_sound(self) -> bool {
        self.chars <= self.bytes
    }

    /// Whether each count can be held in a `usize`.
    pub open spec fn fits(self) -> bool {
        &&& self.lines <= usize::MAX
        &&& self.words <= usize::MAX
        &&& self.bytes <= usize::MAX
        &&& self.chars <= usize::MAX
    }
}

/// The counts of the stream `s`.
///
/// Characters and words are those of the lossy decoding of `s`: each
/// malformed subsequence counts as one character, which is no whitespace.
pub open spec fn stream_counts(s: Seq<u8>) -> Counts {
    Counts {
        lines: line_count(s),
        words: word_count(decode_lossy(s)),
        bytes: s.len(),
        chars: decode_lossy(s).len(),
    }
}

/// What one read that gave `chunk` adds to the counts: one line, and the
/// words, bytes and characters of `chunk`.
pub open spec fn read_counts(chunk: Seq<u8>) -> Counts {
    Counts {
        lines: 1,
        words: word_count(decode_lossy(chunk)),
        bytes: chunk.len(),
        chars: decode_lossy(chunk).len(),
    }
}

/// The counts of one stream.
#[derive(Debug, Clone, Copy, PartialEq, Eq, Structural)]
pub struct FileInfo {
    /// The number of lines.
    pub num_lines: usize,
    /// The number of words.
    pub num_words: usize,
    /// The number of bytes.
    pub num_bytes: usize,
    /// The number of characters.
    pub num_chars: usize,
}

impl View for FileInfo {
    type V = Counts;

    open spec fn view(&self) -> Counts {
        Counts {
            lines: self.num_lines as nat,
            words: self.num_words as nat,
            bytes: self.num_bytes as nat,
            chars: self.num_chars as nat,
        }
    }
}

/// How a count goes on after a read.
#[derive(Debug, Clone, Copy, PartialEq, Eq, Structural)]
pub enum Progress {
    /// The read gave bytes; the counts now include them.
    More(FileInfo),
    /// The read gave nothing: the stream has ended with these counts.
    Done(FileInfo),
    /// A count has grown past what a `usize` holds.
    Overflow,
}

impl FileInfo {
    /// The counts of the empty stream.
    pub fn new() -> (r: FileInfo)
        ensures
            r@ == Counts::zero(),
    {
        FileInfo { num_lines: 0, num_words: 0, num_bytes: 0, num_chars: 0 }
    }

    /// Adds `other` to these counts, as a running total over several streams
    /// does. Gives `None` where a sum does not fit.
    pub fn checked_add(&self, other: &FileInfo) -> (r: Option<FileInfo>)
        ensures
            r is Some <==> self@.plus(other@).fits(),
            r matches Some(sum) ==> sum@ == self@.plus(other@),
    {
        let lines = self.num_lines.checked_add(other.num_lines);
        let words = self.num_words.checked_add(other.num_words);
        let bytes = self.num_bytes.checked_add(other.num_bytes);
        let chars = self.num_chars.checked_add(other.num_chars);
        match (lines, words, bytes, chars) {
            (Some(num_lines), Some(num_words), Some(num_bytes), Some(num_chars)) => Some(
                FileInfo { num_lines, num_words, num_bytes, num_chars },
            ),
            _ => None,
        }
    }
}

/// Counts the characters and the words of `bytes` in one pass.
pub fn chars_and_words(bytes: &[u8]) -> (r: (usize, usize))
    ensures
        r.0 == decode_lossy(bytes@).len(),
        r.1 == word_count(decode_lossy(bytes@)),
        r.1 <= r.0 <= bytes.len(),
{
    let n = bytes.len();
    let ghost text = decode_lossy(bytes@);
    let mut i: usize = 0;
    let mut chars: usize = 0;
    let mut words: usize = 0;
    let mut in_word = false;
    while i < n
        invariant
            n == bytes.len(),
            text == decode_lossy(bytes@),
            i <= n,
            words <= chars <= i,
            chars <= text.len(),
            decode_from(bytes@, i as int) == text.skip(chars as int),
            words == words_upto(text, chars as int),
            in_word == (chars > 0 && !is_whitespace(text[chars - 1])),
        decreases n - i,
    {
        let (value, len) = step_at(bytes, i);
        proof {
            lemma_step(bytes@, i as int);
            let rest = decode_from(bytes@, i as int);
            assert(text[chars as int] == rest[0]);
            assert(decode_from(bytes@, i + len) =~= rest.skip(1));
        }
        let space = is_space(value);
        if !space && !in_word {
            words += 1;
        }
        in_word = !space;
        chars += 1;
        i += len;
    }
    (chars, words)
}

/// Counts one read that gave `chunk`.
fn read_info(chunk: &[u8]) -> (r: FileInfo)
    ensures
        r@ == read_counts(chunk@),
{
    let (chars, words) = chars_and_words(chunk);
    FileInfo { num_lines: 1, num_words: words, num_bytes: chunk.len(), num_chars: chars }
}

/// Takes one read into the counts.
///
/// A read that gave nothing ends the stream: the counts stand. Any other
/// read counts as one line and adds its bytes, characters and words.
pub fn tally(acc: FileInfo, chunk: &[u8]) -> (r: Progress)
    ensures
        match r {
            Progress::Done(last) => chunk@.len() == 0 && last == acc,
            Progress::More(next) => chunk@.len() > 0 && next@ == acc@.plus(read_counts(chunk@)),
            Progress::Overflow => chunk@.len() > 0 && !acc@.plus(read_counts(chunk@)).fits(),
        },
{
    if chunk.len() == 0 {
        return Progress::Done(acc);
    }
    match acc.checked_add(&read_info(chunk)) {
        Some(next) => Progress::More(next),
        None => Progress::Overflow,
    }
}

/// Counts the lines, words, bytes and characters of the stream `bytes`.
pub fn count(bytes: &[u8]) -> (r: FileInfo)
    ensures
        r@ == stream_counts(bytes@),
        r@.is_sound(),
        r.num_lines == 0 <==> bytes@.len() == 0,
{
    let n = bytes.len();
    let mut info = FileInfo::new();
    let mut start: usize = 0;
    while start < n
        invariant
            n == bytes.len(),
            start <= n,
            start < n ==> at_line_start(bytes@.take(start as int)),
            info@ == stream_counts(bytes@.take(start as int)),
        decreases n - start,
    {
        let end = find_line_end(bytes, start);
        let chunk = slice_subrange(bytes, start, end);
        proof {
            let done = bytes@.take(start as int);
            lemma_line_end(bytes@, start as int);
            lemma_read_extends(done, chunk@);
            assert(done + chunk@ =~= bytes@.take(end as int));
            lemma_counts_bound(bytes@.take(end as int));
        }
        let read = read_info(chunk);
        info = FileInfo {
            num_lines: info.num_lines + read.num_lines,
            num_words: info.num_words + read.num_words,
            num_bytes: info.num_bytes + read.num_bytes,
            num_chars: info.num_chars + read.num_chars,
        };
        start = end;
    }
    proof {
        assert(bytes@.take(n as int) =~= bytes@);
        lemma_chars_at_most_bytes(bytes@);
    }
    info
}

/// A stream has no line exactly when it is empty.
pub proof fn lemma_no_lines_iff_empty(s: Seq<u8>)
    ensures
        stream_counts(s).lines == 0 <==> s.len() == 0,
{
}

/// A stream has no more characters than bytes: its counts are sound.
pub proof fn lemma_chars_at_most_bytes(s: Seq<u8>)
    ensures
        stream_counts(s).chars <= stream_counts(s).bytes,
        stream_counts(s).is_sound(),
        read_counts(s).is_sound(),
{
    lemma_decode_len(s, 0);
}

/// A stream has no more lines than bytes, and no more words than
/// characters.
pub proof fn lemma_counts_bound(s: Seq<u8>)
    ensures
        stream_counts(s).lines <= stream_counts(s).bytes,
        stream_counts(s).words <= stream_counts(s).chars,
        stream_counts(s).chars <= stream_counts(s).bytes,
{
    lemma_lines_bound(s);
    lemma_decode_len(s, 0);
    lemma_words_bound(decode_lossy(s), decode_lossy(s).len() as int);
}

/// A sum of sound counts is sound: a running total never shows more
/// characters than bytes.
pub proof fn lemma_sum_is_sound(a: Counts, b: Counts)
    requires
        a.is_sound(),
        b.is_sound(),
    ensures
        a.plus(b).is_sound(),
{
}

/// Whether `gap` is a run of whitespace: not empty, and nothing but
/// whitespace when decoded.
pub open spec fn is_gap(gap: Seq<u8>) -> bool {
    gap.len() > 0 && all_whitespace(decode_lossy(gap))
}

/// A run of whitespace between two stretches of a stream parts their words:
/// the words of the whole are those of the two stretches.
pub proof fn lemma_words_around_gap_bytes(a: Seq<u8>, gap: Seq<u8>, b: Seq<u8>)
    requires
        is_gap(gap),
    ensures
        stream_counts(a + gap + b).words == stream_counts(a).words + stream_counts(b).words,
{
    let text = decode_lossy(gap);
    lemma_decode_len(gap, 0);
    lemma_step(gap, 0);
    lemma_no_replacement(gap, 0);
    lemma_decode_concat(gap, b);
    lemma_decode_concat(a, gap + b);
    assert(a + gap + b =~= a + (gap + b));
    assert(decode_lossy(a) + (text + decode_lossy(b)) =~= decode_lossy(a) + text + decode_lossy(b));
    lemma_words_around_gap(decode_lossy(a), text, decode_lossy(b));
}

/// The word count of a stream does not depend on how long the runs of
/// whitespace between its words are: one run may stand for another.
pub proof fn lemma_words_ignore_gap_width(a: Seq<u8>, gap: Seq<u8>, other: Seq<u8>, b: Seq<u8>)
    requires
        is_gap(gap),
        is_gap(other),
    ensures
        stream_counts(a + gap + b).words == stream_counts(a + other + b).words,
{
    lemma_words_around_gap_bytes(a, gap, b);
    lemma_words_around_gap_bytes(a, other, b);
}

/// The counts of two streams add up to the counts of the two in a row,
/// where the first is empty or ends its last line, or the second is empty.
pub proof fn lemma_counts_additive(a: Seq<u8>, b: Seq<u8>)
    requires
        at_line_start(a) || b.len() == 0,
    ensures
        stream_counts(a + b) == stream_counts(a).plus(stream_counts(b)),
{
    lemma_lines_concat(a, b);
    lemma_decode_concat(a, b);
    if a.len() > 0 && b.len() > 0 {
        lemma_decode_last_ascii(a, 0);
    }
    lemma_words_concat(decode_lossy(a), decode_lossy(b));
}

/// Without that condition the lines do not add up: a first stream that stops
/// inside a line shares that line with the second.
pub proof fn lemma_counts_not_additive(a: Seq<u8>, b: Seq<u8>)
    requires
        !(at_line_start(a) || b.len() == 0),
    ensures
        stream_counts(a + b).lines + 1 == stream_counts(a).lines + stream_counts(b).lines,
        stream_counts(a + b) != stream_counts(a).plus(stream_counts(b)),
{
    lemma_newlines_concat(a, b);
}

/// One read of one line adds what that line counts by itself.
pub proof fn lemma_read_of_line(chunk: Seq<u8>)
    requires
        is_line(chunk),
    ensures
        read_counts(chunk) == stream_counts(chunk),
{
    lemma_one_line(chunk);
}

/// One read of a line takes the counts from the stream before it to the
/// stream with it: reading a stream line by line counts the stream.
pub proof fn lemma_read_extends(done: Seq<u8>, line: Seq<u8>)
    requires
        at_line_start(done),
        is_line(line),
    ensures
        stream_counts(done + line) == stream_counts(done).plus(read_counts(line)),
{
    lemma_read_of_line(line);
    lemma_counts_additive(done, line);
}

/// In the bytes of a text, the characters counted are the characters of the
/// text, and the words counted are its words.
pub proof fn lemma_counts_of_text(text: Seq<char>)
    ensures
        stream_counts(encode_utf8(text)).chars == text.len(),
        stream_counts(encode_utf8(text)).words == word_count(text),
{
    lemma_decode_of_text(text);
}

} // verus!

//! The rows that the counting tool prints: one for each stream, and one for
//! the total over several.
//!
//! A [`Report`] keeps the running total of one run: [`Report::add`] gives the
//! row of each stream that was counted, [`Report::finish`] the row of the
//! total. A stream that could not be opened is not added, and so adds
//! nothing.

use crate::counts::{Counts, FileInfo};
use crate::lines::NEWLINE;
use crate::render::{push_all, push_right_justified, right_justified, SPACE};
use crate::source::{classify, names_stdin, Source};
use vstd::prelude::*;
use vstd::string::StringSliceAdditionalSpecFns;

verus! {

/// The width of the field that holds one count.
pub const FIELD_WIDTH: usize = 8;

/// Which counts a row shows.
#[derive(Debug, Clone, Copy, PartialEq, Eq, Structural)]
pub struct Selection {
    /// The number of lines.
    pub lines: bool,
    /// The number of words.
    pub words: bool,
    /// The number of bytes.
    pub bytes: bool,
    /// The number of characters.
    pub chars: bool,
}

impl Selection {
    /// Whether no count was asked for.
    pub open spec fn is_empty(self) -> bool {
        !self.lines && !self.words && !self.bytes && !self.chars
    }

    /// What is shown: what was asked for, or lines, words and bytes where
    /// nothing was.
    pub open spec fn resolved(self) -> Selection {
        if self.is_empty() {
            Selection { lines: true, words: true, bytes: true, chars: false }
        } else {
            self
        }
    }

    /// Fills in the default where no count was asked for.
    pub fn resolve(self) -> (r: Selection)
        ensures
            r == self.resolved(),
            !r.is_empty(),
    {
        if !self.lines && !self.words && !self.bytes && !self.chars {
            Selection { lines: true, words: true, bytes: true, chars: false }
        } else {
            self
        }
    }
}

/// One field: the count right-justified, or nothing where it is not shown.
pub open spec fn field(shown: bool, n: nat) -> Seq<u8> {
    if shown {
        right_justified(n, FIELD_WIDTH as nat)
    } else {
        Seq::empty()
    }
}

/// The fields of a row, in their fixed order: lines, words, bytes,
/// characters.
pub open spec fn fields(c: Counts, shown: Selection) -> Seq<u8> {
    field(shown.lines, c.lines) + field(shown.words, c.words) + field(shown.bytes, c.bytes)
        + field(shown.chars, c.chars)
}

/// The label of the total row.
pub open spec fn total_label() -> Seq<u8> {
    "total".spec_bytes()
}

/// A row with a label: the fields, a space, the label, and a newline.
pub open spec fn labelled_row(c: Counts, shown: Selection, label: Seq<u8>) -> Seq<u8> {
    fields(c, shown) + seq![SPACE] + label + seq![NEWLINE]
}

/// The row of one stream. The name of a file follows the fields; standard
/// input has no name to show.
pub open spec fn file_row_text(c: Counts, shown: Selection, name: Seq<u8>) -> Seq<u8> {
    if names_stdin(name) {
        fields(c, shown) + seq![NEWLINE]
    } else {
        labelled_row(c, shown, name)
    }
}

fn push_field(out: &mut Vec<u8>, shown: bool, n: usize)
    ensures
        final(out)@ == old(out)@ + field(shown, n as nat),
{
    if shown {
        push_right_justified(out, n, FIELD_WIDTH);
    }
}

fn push_fields(out: &mut Vec<u8>, info: &FileInfo, shown: &Selection)
    ensures
        final(out)@ == old(out)@ + fields(info@, *shown),
{
    push_field(out, shown.lines, info.num_lines);
    push_field(out, shown.words, info.num_words);
    push_field(out, shown.bytes, info.num_bytes);
    push_field(out, shown.chars, info.num_chars);
}

/// The row for the stream called `name` with the counts `info`.
pub fn file_row(info: &FileInfo, shown: &Selection, name: &str) -> (row: Vec<u8>)
    ensures
        row@ == file_row_text(info@, *shown, name.spec_bytes()),
{
    let mut row: Vec<u8> = Vec::new();
    push_fields(&mut row, info, shown);
    match classify(name) {
        Source::Stdin => {},
        Source::Path => {
            row.push(SPACE);
            push_all(&mut row, name.as_bytes());
        },
    }
    row.push(NEWLINE);
    row
}

/// The row for the total over `files` streams that were asked for, labelled
/// `total`. There is one only where more than one stream was asked for.
pub fn total_row(total: &FileInfo, shown: &Selection, files: usize) -> (r: Option<Vec<u8>>)
    ensures
        match r {
            Some(row) => files > 1 && row@ == labelled_row(total@, *shown, total_label()),
            None => files <= 1,
        },
{
    if files <= 1 {
        return None;
    }
    let mut row: Vec<u8> = Vec::new();
    push_fields(&mut row, total, shown);
    row.push(SPACE);
    push_all(&mut row, "total".as_bytes());
    row.push(NEWLINE);
    Some(row)
}

/// The report of one run of the counting tool, as it goes on.
#[derive(Debug, Clone, Copy, PartialEq, Eq, Structural)]
pub struct Report {
    /// Which counts the rows show.
    pub shown: Selection,
    /// How many streams were asked for, opened or not.
    pub files: usize,
    /// The sum of the counts of the streams added so far.
    pub total: FileInfo,
}

impl Report {
    /// The report of a run over `files` streams, before any was counted. It
    /// shows what was asked for, or the default where nothing was.
    pub fn new(asked: Selection, files: usize) -> (r: Report)
        ensures
            r.shown == asked.resolved(),
            r.files == files,
            r.total@ == Counts::zero(),
    {
        Report { shown: asked.resolve(), files, total: FileInfo::new() }
    }

    /// Takes the counts of the stream called `name` into the total and gives
    /// the stream's row. Gives `None`, and changes nothing, where the total
    /// does not fit.
    pub fn add(&mut self, info: &FileInfo, name: &str) -> (r: Option<Vec<u8>>)
        ensures
            final(self).shown == old(self).shown,
            final(self).files == old(self).files,
            match r {
                Some(row) => {
                    &&& old(self).total@.plus(info@).fits()
                    &&& final(self).total@ == old(self).total@.plus(info@)
                    &&& row@ == file_row_text(info@, old(self).shown, name.spec_bytes())
                },
                None => {
                    &&& !old(self).total@.plus(info@).fits()
                    &&& final(self).total == old(self).total
                },
            },
    {
        match self.total.checked_add(info) {
            Some(sum) => {
                self.total = sum;
                Some(file_row(info, &self.shown, name))
            },
            None => None,
        }
    }

    /// The row that ends the report: the total, where more than one stream
    /// was asked for, else none.
    pub fn finish(&self) -> (r: Option<Vec<u8>>)
        ensures
            match r {
                Some(row) => self.files > 1 && row@ == labelled_row(
                    self.total@,
                    self.shown,
                    total_label(),
                ),
                None => self.files <= 1,
            },
    {
        total_row(&self.total, &self.shown, self.files)
    }
}

} // verus!

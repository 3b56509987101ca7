//! Line-oriented text utilities over byte streams: counting lines, words,
//! bytes and characters, numbering lines, and showing the head of a stream.
//!
//! Every function works on bytes that were read already and gives back
//! bytes to print; reading and printing are left to the caller. A stream
//! need not be held in memory: each tool can be driven one read at a time.
//!
//! - [`counts`]: the counts of a stream, at once or read by read.
//! - [`report`]: the rows that show counts, and the total over several
//!   streams.
//! - [`number`]: the lines of a stream with their numbers.
//! - [`preview`]: the first lines or bytes of a stream.
//! - [`options`]: what a tool is asked to do.
//! - [`source`]: where a stream comes from.
//! - [`lines`], [`lossy`], [`words`], [`utf8`], [`render`]: lines,
//!   characters and words of bytes, and numbers as text.
//!
//! Characters and words are counted in bytes read as UTF-8, and no bytes are
//! refused: what is malformed counts as U+FFFD, one for each longest stretch
//! that could have begun a well-formed sequence. What is printed of a stream
//! is its bytes as they stand.

pub mod counts;
pub mod lines;
pub mod lossy;
pub mod number;
pub mod options;
pub mod preview;
pub mod render;
pub mod report;
pub mod source;
pub mod utf8;
pub mod words;

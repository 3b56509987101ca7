//! What a tool is asked to do, checked before any stream is touched.

use crate::number::Numbering;
use crate::preview::Limit;
use crate::report::Selection;
use vstd::prelude::*;
use vstd::string::StringExecFns;

verus! {

/// Why what was asked for cannot be done.
#[derive(Debug, Clone, Copy, PartialEq, Eq, Structural)]
pub enum ArgumentError {
    /// Two options were given of which only one can stand.
    Exclusive,
    /// A limit was given as zero.
    NotPositive,
}

/// How many lines a preview shows where no limit is given.
pub const DEFAULT_LINES: u64 = 10;

/// What the counting tool shows for its four flags. Bytes and characters
/// fill the same place in a row, so only one of the two can be asked for;
/// where no flag is given, lines, words and bytes are shown.
pub open spec fn selection_of(lines: bool, words: bool, bytes: bool, chars: bool) -> Result<
    Selection,
    ArgumentError,
> {
    if bytes && chars {
        Err(ArgumentError::Exclusive)
    } else {
        Ok((Selection { lines, words, bytes, chars }).resolved())
    }
}

/// Which lines the concatenating tool numbers for its two flags, of which
/// only one can be given.
pub open spec fn numbering_of(all: bool, nonblank: bool) -> Result<Numbering, ArgumentError> {
    if all && nonblank {
        Err(ArgumentError::Exclusive)
    } else if all {
        Ok(Numbering::All)
    } else if nonblank {
        Ok(Numbering::NonBlank)
    } else {
        Ok(Numbering::Off)
    }
}

/// How much the previewing tool shows for its two limits, of which only one
/// can be given, and none can be zero. With no limit it shows ten lines.
pub open spec fn limit_of(lines: Option<u64>, bytes: Option<u64>) -> Result<Limit, ArgumentError> {
    match (lines, bytes) {
        (Some(_), Some(_)) => Err(ArgumentError::Exclusive),
        (Some(n), None) => if n == 0 {
            Err(ArgumentError::NotPositive)
        } else {
            Ok(Limit::Lines(n))
        },
        (None, Some(n)) => if n == 0 {
            Err(ArgumentError::NotPositive)
        } else {
            Ok(Limit::Bytes(n))
        },
        (None, None) => Ok(Limit::Lines(DEFAULT_LINES)),
    }
}

/// Checks the flags of the counting tool and gives what it shows.
pub fn counting_options(lines: bool, words: bool, bytes: bool, chars: bool) -> (r: Result<
    Selection,
    ArgumentError,
>)
    ensures
        r == selection_of(lines, words, bytes, chars),
{
    if bytes && chars {
        Err(ArgumentError::Exclusive)
    } else {
        Ok((Selection { lines, words, bytes, chars }).resolve())
    }
}

/// Checks the flags of the concatenating tool and gives which lines it
/// numbers.
pub fn numbering_options(all: bool, nonblank: bool) -> (r: Result<Numbering, ArgumentError>)
    ensures
        r == numbering_of(all, nonblank),
{
    if all && nonblank {
        Err(ArgumentError::Exclusive)
    } else if all {
        Ok(Numbering::All)
    } else if nonblank {
        Ok(Numbering::NonBlank)
    } else {
        Ok(Numbering::Off)
    }
}

/// Checks the limits of the previewing tool and gives how much it shows.
pub fn preview_options(lines: Option<u64>, bytes: Option<u64>) -> (r: Result<Limit, ArgumentError>)
    ensures
        r == limit_of(lines, bytes),
{
    match (lines, bytes) {
        (Some(_), Some(_)) => Err(ArgumentError::Exclusive),
        (Some(n), None) => if n == 0 {
            Err(ArgumentError::NotPositive)
        } else {
            Ok(Limit::Lines(n))
        },
        (None, Some(n)) => if n == 0 {
            Err(ArgumentError::NotPositive)
        } else {
            Ok(Limit::Bytes(n))
        },
        (None, None) => Ok(Limit::Lines(DEFAULT_LINES)),
    }
}

impl ArgumentError {
    /// What the error stream is told.
    pub fn message(&self) -> (text: String)
        ensures
            text@ == match *self {
                ArgumentError::Exclusive => "these options cannot be used together"@,
                ArgumentError::NotPositive => "a limit must be at least 1"@,
            },
    {
        match self {
            ArgumentError::Exclusive => String::from_str("these options cannot be used together"),
            ArgumentError::NotPositive => String::from_str("a limit must be at least 1"),
        }
    }
}

} // verus!

//! Naming the input: a path, or the sign for standard input; and what is
//! said of an input that could not be opened.

use vstd::prelude::*;
use vstd::string::{StringExecFns, StringSliceAdditionalSpecFns};
use vstd::utf8::encode_utf8;

verus! {

/// The byte `-`, which alone names standard input.
pub const DASH: u8 = 0x2D;

/// Where a stream comes from.
#[derive(Debug, Clone, Copy, PartialEq, Eq, Structural)]
pub enum Source {
    /// The process's standard input.
    Stdin,
    /// The file at the path that the name gives.
    Path,
}

/// Whether the name `bytes` stands for standard input.
pub open spec fn names_stdin(bytes: Seq<u8>) -> bool {
    bytes == seq![DASH]
}

/// The source that `bytes` names.
pub open spec fn source_of(bytes: Seq<u8>) -> Source {
    if names_stdin(bytes) {
        Source::Stdin
    } else {
        Source::Path
    }
}

/// Tells where the stream named `name` comes from: standard input for `-`,
/// else the file at that path.
pub fn classify(name: &str) -> (r: Source)
    ensures
        r == source_of(name.spec_bytes()),
{
    let bytes = name.as_bytes();
    if bytes.len() == 1 && bytes[0] == DASH {
        Source::Stdin
    } else {
        Source::Path
    }
}

/// A name stands for standard input exactly when it is the one character
/// `-`.
pub proof fn lemma_stdin_name(name: Seq<char>)
    ensures
        names_stdin(encode_utf8(name)) <==> name == seq!['-'],
{
    vstd::utf8::encode_utf8_decode_utf8(name);
    vstd::utf8::encode_utf8_decode_utf8(seq!['-']);
    assert(encode_utf8(seq!['-']) =~= seq![DASH]) by {
        reveal_with_fuel(encode_utf8, 2);
        let c = '-' as u32;
        assert((c & 0x7F) as u8 == 0x2Du8) by (bit_vector)
            requires
                c == 0x2D,
        ;
    }
}

/// A stream that could not be opened for reading. The run goes on without
/// it.
#[derive(Debug, PartialEq, Eq)]
pub struct OpenError {
    /// The name that was asked for.
    pub name: String,
    /// Why the stream could not be opened.
    pub cause: String,
}

impl OpenError {
    /// The failure to open the stream called `name`, for the reason `cause`.
    pub fn new(name: &str, cause: &str) -> (r: OpenError)
        ensures
            r.name@ == name@,
            r.cause@ == cause@,
    {
        OpenError { name: String::from_str(name), cause: String::from_str(cause) }
    }

    /// What the error stream is told: the name that was asked for, and the
    /// cause after it.
    pub fn message(&self) -> (text: String)
        ensures
            text@ == "Failed to open "@ + self.name@ + ": "@ + self.cause@,
    {
        let mut text = String::from_str("Failed to open ");
        text.append(self.name.as_str());
        text.append(": ");
        text.append(self.cause.as_str());
        text
    }
}

} // verus!

//! Lossy UTF-8 decoding.
//!
//! A byte sequence is read as a sequence of characters from left to right.
//! At each position one *step* is taken: either a well-formed UTF-8 sequence of
//! one to four bytes, which gives its scalar value, or the longest prefix of a
//! well-formed sequence that the input holds there (at least one byte), which
//! gives one U+FFFD. No input is rejected.

use vstd::prelude::*;

verus! {

/// The scalar value that stands for each malformed subsequence.
pub const REPLACEMENT: u32 = 0xFFFD;

/// Whether `b` is a UTF-8 continuation byte.
pub open spec fn is_continuation(b: u8) -> bool {
    0x80 <= b <= 0xBF
}

/// The length of a well-formed sequence that starts with `lead`, or 0 where
/// no well-formed sequence starts with it.
pub open spec fn width_of(lead: u8) -> int {
    if lead < 0x80 {
        1
    } else if 0xC2 <= lead <= 0xDF {
        2
    } else if 0xE0 <= lead <= 0xEF {
        3
    } else if 0xF0 <= lead <= 0xF4 {
        4
    } else {
        0
    }
}

/// Whether `b` may follow `lead` as the second byte of a well-formed
/// sequence. The four special leads shut out overlong forms, surrogates and
/// values above U+10FFFF.
pub open spec fn second_fits(lead: u8, b: u8) -> bool {
    if lead == 0xE0 {
        0xA0 <= b <= 0xBF
    } else if lead == 0xED {
        0x80 <= b <= 0x9F
    } else if lead == 0xF0 {
        0x90 <= b <= 0xBF
    } else if lead == 0xF4 {
        0x80 <= b <= 0x8F
    } else {
        is_continuation(b)
    }
}

/// The number of bytes that the step at `i` takes.
pub open spec fn step_len(s: Seq<u8>, i: int) -> int
    recommends
        0 <= i < s.len(),
{
    let w = width_of(s[i]);
    if w < 2 || !(i + 1 < s.len() && second_fits(s[i], s[i + 1])) {
        1
    } else if w == 2 || !(i + 2 < s.len() && is_continuation(s[i + 2])) {
        2
    } else if w == 3 || !(i + 3 < s.len() && is_continuation(s[i + 3])) {
        3
    } else {
        4
    }
}

/// Whether a well-formed sequence stands at `i`.
pub open spec fn well_formed_at(s: Seq<u8>, i: int) -> bool
    recommends
        0 <= i < s.len(),
{
    step_len(s, i) == width_of(s[i])
}

/// The scalar value of the well-formed sequence at `i`.
pub open spec fn scalar_at(s: Seq<u8>, i: int) -> int
    recommends
        0 <= i < s.len(),
        well_formed_at(s, i),
{
    let w = width_of(s[i]);
    if w == 1 {
        s[i] as int
    } else if w == 2 {
        (s[i] - 0xC0) * 0x40 + (s[i + 1] - 0x80)
    } else if w == 3 {
        (s[i] - 0xE0) * 0x1000 + (s[i + 1] - 0x80) * 0x40 + (s[i + 2] - 0x80)
    } else {
        (s[i] - 0xF0) * 0x40000 + (s[i + 1] - 0x80) * 0x1000 + (s[i + 2] - 0x80) * 0x40 + (s[i
            + 3] - 0x80)
    }
}

/// The scalar value that the step at `i` gives.
pub open spec fn value_at(s: Seq<u8>, i: int) -> u32
    recommends
        0 <= i < s.len(),
{
    if well_formed_at(s, i) {
        scalar_at(s, i) as u32
    } else {
        REPLACEMENT
    }
}

/// The character that the step at `i` gives.
pub open spec fn char_at(s: Seq<u8>, i: int) -> char
    recommends
        0 <= i < s.len(),
{
    value_at(s, i) as char
}

/// The characters of `s` from position `i` on.
pub open spec fn decode_from(s: Seq<u8>, i: int) -> Seq<char>
    decreases s.len() - i,
{
    if 0 <= i < s.len() {
        seq![char_at(s, i)] + decode_from(s, i + step_len(s, i))
    } else {
        Seq::empty()
    }
}

/// The characters of `s`.
pub open spec fn decode_lossy(s: Seq<u8>) -> Seq<char> {
    decode_from(s, 0)
}

/// Whether `v` is a Unicode scalar value.
pub open spec fn is_scalar_value(v: u32) -> bool {
    v < 0xD800 || 0xE000 <= v <= 0x10FFFF
}

/// A step takes between one and four bytes, all of them inside the input, and
/// gives a scalar value.
pub proof fn lemma_step(s: Seq<u8>, i: int)
    requires
        0 <= i < s.len(),
    ensures
        1 <= step_len(s, i) <= 4,
        i + step_len(s, i) <= s.len(),
        is_scalar_value(value_at(s, i)),
        well_formed_at(s, i) ==> value_at(s, i) == scalar_at(s, i),
        step_len(s, i) == 1 && well_formed_at(s, i) <==> s[i] < 0x80,
{
}

/// Decoding never gives more characters than there are bytes, and gives at
/// least one where a byte is left.
pub proof fn lemma_decode_len(s: Seq<u8>, i: int)
    requires
        0 <= i <= s.len(),
    ensures
        decode_from(s, i).len() <= s.len() - i,
        i < s.len() ==> decode_from(s, i).len() >= 1,
    decreases s.len() - i,
{
    if i < s.len() {
        lemma_step(s, i);
        lemma_decode_len(s, i + step_len(s, i));
    }
}

/// Whether every step of `s` from position `i` on is well formed.
pub open spec fn well_formed_from(s: Seq<u8>, i: int) -> bool
    decreases s.len() - i,
{
    0 <= i < s.len() ==> well_formed_at(s, i) && well_formed_from(s, i + step_len(s, i))
}

/// Whether `s` is well-formed UTF-8 throughout.
pub open spec fn is_well_formed(s: Seq<u8>) -> bool {
    well_formed_from(s, 0)
}

/// Whether the join of `a` and `b` is plainly clean: one side is empty, `a`
/// ends in an ASCII byte, or `b` does not begin with a continuation byte.
pub open spec fn joins_at_edge(a: Seq<u8>, b: Seq<u8>) -> bool {
    a.len() == 0 || b.len() == 0 || a.last() < 0x80 || !is_continuation(b[0])
}

/// Whether the steps of `a + b` fall apart into those of `a` and those of
/// `b`, because no step of `a` can reach into `b`: the join is plainly
/// clean, or `a` is well formed.
pub open spec fn joins_cleanly(a: Seq<u8>, b: Seq<u8>) -> bool {
    joins_at_edge(a, b) || is_well_formed(a)
}

proof fn lemma_step_in_prefix(a: Seq<u8>, b: Seq<u8>, i: int)
    requires
        0 <= i < a.len(),
        joins_at_edge(a, b) || well_formed_at(a, i),
    ensures
        step_len(a + b, i) == step_len(a, i),
        value_at(a + b, i) == value_at(a, i),
{
}

proof fn lemma_decode_shift(a: Seq<u8>, b: Seq<u8>, j: int)
    requires
        0 <= j <= b.len(),
    ensures
        decode_from(a + b, a.len() + j) == decode_from(b, j),
    decreases b.len() - j,
{
    if j < b.len() {
        lemma_step(b, j);
        lemma_decode_shift(a, b, j + step_len(b, j));
    }
}

proof fn lemma_decode_concat_from(a: Seq<u8>, b: Seq<u8>, i: int)
    requires
        0 <= i <= a.len(),
        joins_at_edge(a, b) || well_formed_from(a, i),
    ensures
        decode_from(a + b, i) == decode_from(a, i) + decode_lossy(b),
    decreases a.len() - i,
{
    if i < a.len() {
        lemma_step_in_prefix(a, b, i);
        lemma_step(a, i);
        lemma_decode_concat_from(a, b, i + step_len(a, i));
    } else {
        lemma_decode_shift(a, b, 0);
    }
}

/// Decoding distributes over a clean join.
pub proof fn lemma_decode_concat(a: Seq<u8>, b: Seq<u8>)
    requires
        joins_cleanly(a, b),
    ensures
        decode_lossy(a + b) == decode_lossy(a) + decode_lossy(b),
{
    lemma_decode_concat_from(a, b, 0);
}

/// Where the input ends in an ASCII byte, the last character is that byte.
pub proof fn lemma_decode_last_ascii(s: Seq<u8>, i: int)
    requires
        0 <= i < s.len(),
        s.last() < 0x80,
    ensures
        decode_from(s, i).len() > 0,
        decode_from(s, i).last() as u32 == s.last(),
    decreases s.len() - i,
{
    lemma_step(s, i);
    let next = i + step_len(s, i);
    if next < s.len() {
        lemma_decode_last_ascii(s, next);
    }
}

/// Input that decodes without any U+FFFD is well formed.
pub proof fn lemma_no_replacement(s: Seq<u8>, i: int)
    requires
        0 <= i <= s.len(),
        forall|j: int| 0 <= j < decode_from(s, i).len() ==> decode_from(s, i)[j] as u32 != REPLACEMENT,
    ensures
        well_formed_from(s, i),
    decreases s.len() - i,
{
    if i < s.len() {
        lemma_step(s, i);
        let here = decode_from(s, i);
        let next = i + step_len(s, i);
        assert(here[0] == char_at(s, i));
        assert forall|j: int| 0 <= j < decode_from(s, next).len() implies decode_from(s, next)[j] as u32
            != REPLACEMENT by {
            assert(decode_from(s, next)[j] == here[j + 1]);
        }
        lemma_no_replacement(s, next);
    }
}

/// Takes the step at `i`, which is inside `bytes`.
pub(crate) fn step_at(bytes: &[u8], i: usize) -> (r: (u32, usize))
    requires
        i < bytes.len(),
    ensures
        r.0 == value_at(bytes@, i as int),
        r.1 == step_len(bytes@, i as int),
        1 <= r.1 <= 4,
        i + r.1 <= bytes.len(),
{
    let n = bytes.len();
    let b0 = bytes[i];
    if b0 < 0x80 {
        return (b0 as u32, 1);
    }
    if b0 < 0xC2 || b0 > 0xF4 || n - i < 2 {
        return (REPLACEMENT, 1);
    }
    let b1 = bytes[i + 1];
    let lo: u8 = if b0 == 0xE0 {
        0xA0
    } else if b0 == 0xF0 {
        0x90
    } else {
        0x80
    };
    let hi: u8 = if b0 == 0xED {
        0x9F
    } else if b0 == 0xF4 {
        0x8F
    } else {
        0xBF
    };
    if b1 < lo || b1 > hi {
        return (REPLACEMENT, 1);
    }
    if b0 < 0xE0 {
        return ((b0 as u32 - 0xC0) * 0x40 + (b1 as u32 - 0x80), 2);
    }
    if n - i < 3 {
        return (REPLACEMENT, 2);
    }
    let b2 = bytes[i + 2];
    if b2 < 0x80 || b2 > 0xBF {
        return (REPLACEMENT, 2);
    }
    if b0 < 0xF0 {
        return ((b0 as u32 - 0xE0) * 0x1000 + (b1 as u32 - 0x80) * 0x40 + (b2 as u32 - 0x80), 3);
    }
    if n - i < 4 {
        return (REPLACEMENT, 3);
    }
    let b3 = bytes[i + 3];
    if b3 < 0x80 || b3 > 0xBF {
        return (REPLACEMENT, 3);
    }
    (
        (b0 as u32 - 0xF0) * 0x40000 + (b1 as u32 - 0x80) * 0x1000 + (b2 as u32 - 0x80) * 0x40 + (
        b3 as u32 - 0x80),
        4,
    )
}

/// Takes the step at `i`: the scalar value it gives and the number of bytes
/// it takes. There is no step at or past the end of `bytes`.
pub fn decode_step(bytes: &[u8], i: usize) -> (r: Option<(u32, usize)>)
    ensures
        match r {
            Some((value, len)) => {
                &&& i < bytes@.len()
                &&& value == value_at(bytes@, i as int)
                &&& len == step_len(bytes@, i as int)
            },
            None => i >= bytes@.len(),
        },
{
    if i < bytes.len() {
        Some(step_at(bytes, i))
    } else {
        None
    }
}

} // verus!

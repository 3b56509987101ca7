//! Lossy decoding beside strict UTF-8.
//!
//! On well-formed input the lossy decoding is the strict one, so the
//! characters counted in a string's bytes are the string's characters.

use crate::lossy::{
    decode_from, decode_lossy, is_well_formed, lemma_step, step_len, value_at, well_formed_at,
    well_formed_from,
};
use vstd::prelude::*;
use vstd::utf8::*;

verus! {

proof fn lemma_one_byte(b0: u8)
    by (bit_vector)
    requires
        b0 <= 0x7F,
    ensures
        codepoint_width_1(b0) == b0 as u32,
{
}

proof fn lemma_two_bytes(b0: u8, b1: u8)
    by (bit_vector)
    requires
        0xC0 <= b0 <= 0xDF,
        0x80 <= b1 <= 0xBF,
    ensures
        codepoint_width_2(b0, b1) == (b0 as u32 - 0xC0) * 0x40 + (b1 as u32 - 0x80),
        0x80 <= codepoint_width_2(b0, b1) <==> 0xC2 <= b0,
{
}

proof fn lemma_three_bytes(b0: u8, b1: u8, b2: u8)
    by (bit_vector)
    requires
        0xE0 <= b0 <= 0xEF,
        0x80 <= b1 <= 0xBF,
        0x80 <= b2 <= 0xBF,
    ensures
        codepoint_width_3(b0, b1, b2) == (b0 as u32 - 0xE0) * 0x1000 + (b1 as u32 - 0x80) * 0x40
            + (b2 as u32 - 0x80),
        0x800 <= codepoint_width_3(b0, b1, b2) <==> (b0 == 0xE0 ==> 0xA0 <= b1),
        !(0xD800 <= codepoint_width_3(b0, b1, b2) <= 0xDFFF) <==> (b0 == 0xED ==> b1 <= 0x9F),
{
}

proof fn lemma_four_bytes(b0: u8, b1: u8, b2: u8, b3: u8)
    by (bit_vector)
    requires
        0xF0 <= b0 <= 0xF7,
        0x80 <= b1 <= 0xBF,
        0x80 <= b2 <= 0xBF,
        0x80 <= b3 <= 0xBF,
    ensures
        codepoint_width_4(b0, b1, b2, b3) == (b0 as u32 - 0xF0) * 0x40000 + (b1 as u32 - 0x80)
            * 0x1000 + (b2 as u32 - 0x80) * 0x40 + (b3 as u32 - 0x80),
        0x10000 <= codepoint_width_4(b0, b1, b2, b3) <==> (b0 == 0xF0 ==> 0x90 <= b1),
        codepoint_width_4(b0, b1, b2, b3) <= 0x10FFFF <==> b0 < 0xF4 || (b0 == 0xF4 && b1 <= 0x8F),
{
}

/// A step is well formed exactly where strict UTF-8 finds a scalar value
/// there, and then both give the same value and length.
pub proof fn lemma_step_is_strict(s: Seq<u8>, i: int)
    requires
        0 <= i < s.len(),
    ensures
        well_formed_at(s, i) <==> valid_first_scalar(s.skip(i)),
        well_formed_at(s, i) ==> decode_first_scalar(s.skip(i)) == value_at(s, i),
        well_formed_at(s, i) ==> length_of_first_scalar(s.skip(i)) == step_len(s, i),
{
    let t = s.skip(i);
    let b0 = s[i];
    if b0 <= 0x7F {
        lemma_one_byte(b0);
    } else if is_leading_byte_width_2(b0) {
        if t.len() >= 2 && is_continuation_byte(t[1]) {
            lemma_two_bytes(b0, t[1]);
        }
    } else if is_leading_byte_width_3(b0) {
        if t.len() >= 3 && is_continuation_byte(t[1]) && is_continuation_byte(t[2]) {
            lemma_three_bytes(b0, t[1], t[2]);
        }
    } else if is_leading_byte_width_4(b0) {
        if t.len() >= 4 && is_continuation_byte(t[1]) && is_continuation_byte(t[2])
            && is_continuation_byte(t[3]) {
            lemma_four_bytes(b0, t[1], t[2], t[3]);
        }
    }
}

proof fn lemma_well_formed_is_valid_from(s: Seq<u8>, i: int)
    requires
        0 <= i <= s.len(),
    ensures
        well_formed_from(s, i) <==> valid_utf8(s.skip(i)),
    decreases s.len() - i,
{
    if i < s.len() {
        lemma_step_is_strict(s, i);
        lemma_step(s, i);
        let next = i + step_len(s, i);
        if well_formed_at(s, i) {
            assert(pop_first_scalar(s.skip(i)) =~= s.skip(next));
            lemma_well_formed_is_valid_from(s, next);
        }
    }
}

/// Input is well formed exactly where strict UTF-8 accepts it.
pub proof fn lemma_well_formed_is_valid(s: Seq<u8>)
    ensures
        is_well_formed(s) <==> valid_utf8(s),
{
    assert(s.skip(0) =~= s);
    lemma_well_formed_is_valid_from(s, 0);
}

proof fn lemma_decode_valid_from(s: Seq<u8>, i: int)
    requires
        0 <= i <= s.len(),
        valid_utf8(s.skip(i)),
    ensures
        decode_from(s, i) == decode_utf8(s.skip(i)),
    decreases s.len() - i,
{
    let t = s.skip(i);
    if i < s.len() {
        lemma_step_is_strict(s, i);
        lemma_step(s, i);
        let next = i + step_len(s, i);
        assert(pop_first_scalar(t) =~= s.skip(next));
        lemma_decode_valid_from(s, next);
    }
}

/// Well-formed input decodes as strict UTF-8 does.
pub proof fn lemma_decode_valid(s: Seq<u8>)
    requires
        valid_utf8(s),
    ensures
        decode_lossy(s) == decode_utf8(s),
{
    assert(s.skip(0) =~= s);
    lemma_decode_valid_from(s, 0);
}

/// The bytes of a text decode to that text: what is counted in a string's
/// bytes are the string's own characters.
pub proof fn lemma_decode_of_text(text: Seq<char>)
    ensures
        decode_lossy(encode_utf8(text)) == text,
{
    encode_utf8_valid_utf8(text);
    encode_utf8_decode_utf8(text);
    lemma_decode_valid(encode_utf8(text));
}

} // verus!

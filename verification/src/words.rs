//! Whitespace and words.
//!
//! A word is a maximal run of characters that are not whitespace. Whitespace
//! is what Unicode gives the property `White_Space`.

use vstd::prelude::*;

verus! {

/// Whether the scalar value `v` has the Unicode property `White_Space`.
pub open spec fn is_space_value(v: u32) -> bool {
    ||| 0x09 <= v <= 0x0D
    ||| v == 0x20
    ||| v == 0x85
    ||| v == 0xA0
    ||| v == 0x1680
    ||| 0x2000 <= v <= 0x200A
    ||| v == 0x2028
    ||| v == 0x2029
    ||| v == 0x202F
    ||| v == 0x205F
    ||| v == 0x3000
}

/// Whether `c` is whitespace.
pub open spec fn is_whitespace(c: char) -> bool {
    is_space_value(c as u32)
}

/// Whether a word begins at position `j` of `t`.
pub open spec fn starts_word(t: Seq<char>, j: int) -> bool {
    &&& 0 <= j < t.len()
    &&& !is_whitespace(t[j])
    &&& (j == 0 || is_whitespace(t[j - 1]))
}

/// The number of words that begin among the first `n` characters of `t`.
pub open spec fn words_upto(t: Seq<char>, n: int) -> nat
    decreases n,
{
    if n <= 0 {
        0
    } else {
        words_upto(t, n - 1) + if starts_word(t, n - 1) {
            1nat
        } else {
            0nat
        }
    }
}

/// The number of words in `t`.
pub open spec fn word_count(t: Seq<char>) -> nat {
    words_upto(t, t.len() as int)
}

/// Whether every character of `t` is whitespace.
pub open spec fn all_whitespace(t: Seq<char>) -> bool {
    forall|j: int| 0 <= j < t.len() ==> is_whitespace(#[trigger] t[j])
}

/// Tells whether the scalar value `v` is whitespace.
pub fn is_space(v: u32) -> (r: bool)
    ensures
        r == is_space_value(v),
{
    if v < 0x80 {
        (0x09 <= v && v <= 0x0D) || v == 0x20
    } else if v < 0x1680 {
        v == 0x85 || v == 0xA0
    } else {
        v == 0x1680 || (0x2000 <= v && v <= 0x200A) || v == 0x2028 || v == 0x2029 || v == 0x202F
            || v == 0x205F || v == 0x3000
    }
}

/// There are no more words than characters.
pub proof fn lemma_words_bound(t: Seq<char>, n: int)
    requires
        0 <= n <= t.len(),
    ensures
        words_upto(t, n) <= n,
    decreases n,
{
    if n > 0 {
        lemma_words_bound(t, n - 1);
    }
}

proof fn lemma_words_prefix(t: Seq<char>, u: Seq<char>, n: int)
    requires
        0 <= n <= t.len(),
        n <= u.len(),
        forall|j: int| 0 <= j < n ==> t[j] == u[j],
    ensures
        words_upto(t, n) == words_upto(u, n),
    decreases n,
{
    if n > 0 {
        lemma_words_prefix(t, u, n - 1);
    }
}

/// Whether no word runs across the join of `x` and `y`: one of them is empty,
/// `x` ends in whitespace, or `y` begins with it.
pub open spec fn words_apart(x: Seq<char>, y: Seq<char>) -> bool {
    x.len() == 0 || y.len() == 0 || is_whitespace(x.last()) || is_whitespace(y[0])
}

proof fn lemma_words_concat_upto(x: Seq<char>, y: Seq<char>, n: int)
    requires
        words_apart(x, y),
        0 <= n <= y.len(),
    ensures
        words_upto(x + y, x.len() + n) == word_count(x) + words_upto(y, n),
    decreases n,
{
    let t = x + y;
    if n == 0 {
        lemma_words_prefix(t, x, x.len() as int);
    } else {
        lemma_words_concat_upto(x, y, n - 1);
    }
}

/// Where no word runs across the join, the words of `x + y` are those of `x`
/// and those of `y`.
pub proof fn lemma_words_concat(x: Seq<char>, y: Seq<char>)
    requires
        words_apart(x, y),
    ensures
        word_count(x + y) == word_count(x) + word_count(y),
{
    lemma_words_concat_upto(x, y, y.len() as int);
}

/// A run of whitespace holds no word.
pub proof fn lemma_words_of_whitespace(t: Seq<char>, n: int)
    requires
        all_whitespace(t),
        0 <= n <= t.len(),
    ensures
        words_upto(t, n) == 0,
    decreases n,
{
    if n > 0 {
        lemma_words_of_whitespace(t, n - 1);
    }
}

/// A run of whitespace between two texts parts their words: the words of the
/// whole are those of the two texts.
pub proof fn lemma_words_around_gap(x: Seq<char>, gap: Seq<char>, y: Seq<char>)
    requires
        gap.len() > 0,
        all_whitespace(gap),
    ensures
        word_count(x + gap + y) == word_count(x) + word_count(y),
{
    lemma_words_of_whitespace(gap, gap.len() as int);
    lemma_words_concat(x, gap);
    lemma_words_concat(x + gap, y);
}

/// The number of words does not depend on how long the runs of whitespace
/// between them are.
pub proof fn lemma_words_gap_width(x: Seq<char>, gap: Seq<char>, other: Seq<char>, y: Seq<char>)
    requires
        gap.len() > 0,
        all_whitespace(gap),
        other.len() > 0,
        all_whitespace(other),
    ensures
        word_count(x + gap + y) == word_count(x + other + y),
{
    lemma_words_around_gap(x, gap, y);
    lemma_words_around_gap(x, other, y);
}

} // verus!

//! Writing to a buffer of bytes: numbers in decimal digits, padded on the
//! left to a field's width, and bytes as they are.

use vstd::prelude::*;

verus! {

/// The space that pads a field.
pub const SPACE: u8 = 0x20;

/// The digit zero; the other digits follow it.
pub const ZERO: u8 = 0x30;

/// The digit for `d`, which is below ten.
pub open spec fn digit(d: nat) -> u8
    recommends
        d < 10,
{
    (ZERO + d) as u8
}

/// `n` in decimal digits, without leading zeros.
pub open spec fn decimal(n: nat) -> Seq<u8>
    decreases n,
{
    if n < 10 {
        seq![digit(n)]
    } else {
        decimal(n / 10).push(digit(n % 10))
    }
}

/// `k` spaces; none where `k` is not positive.
pub open spec fn blanks(k: int) -> Seq<u8> {
    Seq::new(
        if k > 0 {
            k as nat
        } else {
            0
        },
        |i: int| SPACE,
    )
}

/// `n` in decimal, with spaces before it to fill `width` bytes. A number
/// with more digits than `width` stands unshortened.
pub open spec fn right_justified(n: nat, width: nat) -> Seq<u8> {
    blanks(width - decimal(n).len()) + decimal(n)
}

/// A number is written with digits alone.
pub proof fn lemma_decimal_digits(n: nat)
    ensures
        forall|j: int| 0 <= j < decimal(n).len() ==> ZERO <= #[trigger] decimal(n)[j] <= ZERO + 9,
    decreases n,
{
    if n >= 10 {
        lemma_decimal_digits(n / 10);
        let front = decimal(n / 10);
        assert forall|j: int| 0 <= j < decimal(n).len() implies ZERO <= #[trigger] decimal(n)[j]
            <= ZERO + 9 by {
            if j < front.len() {
                assert(decimal(n)[j] == front[j]);
            }
        }
    }
}

/// A field is as wide as asked, or as wide as its digits where those are
/// more.
pub proof fn lemma_right_justified_len(n: nat, width: nat)
    ensures
        decimal(n).len() >= 1,
        right_justified(n, width).len() == if decimal(n).len() > width {
            decimal(n).len()
        } else {
            width
        },
    decreases n,
{
    if n >= 10 {
        lemma_right_justified_len(n / 10, width);
    }
}

/// Appends `bytes` to `out`.
pub fn push_all(out: &mut Vec<u8>, bytes: &[u8])
    ensures
        final(out)@ == old(out)@ + bytes@,
{
    let n = bytes.len();
    let mut i: usize = 0;
    while i < n
        invariant
            n == bytes.len(),
            i <= n,
            out@ == old(out)@ + bytes@.take(i as int),
        decreases n - i,
    {
        out.push(bytes[i]);
        i += 1;
    }
}

/// Appends `n`, right-justified in a field of `width` bytes, to `out`.
pub fn push_right_justified(out: &mut Vec<u8>, n: usize, width: usize)
    ensures
        final(out)@ == old(out)@ + right_justified(n as nat, width as nat),
{
    let mut digits: Vec<u8> = Vec::new();
    let mut m = n;
    while m >= 10
        invariant
            decimal(n as nat) == decimal(m as nat) + digits@.reverse(),
        decreases m,
    {
        digits.push(ZERO + (m % 10) as u8);
        m = m / 10;
    }
    digits.push(ZERO + m as u8);
    let count = digits.len();
    let pad = if width > count {
        width - count
    } else {
        0
    };
    let mut done: usize = 0;
    while done < pad
        invariant
            done <= pad,
            out@ == old(out)@ + blanks(done as int),
        decreases pad - done,
    {
        out.push(SPACE);
        done += 1;
    }
    let mut left = count;
    while left > 0
        invariant
            left <= count,
            count == digits@.len(),
            out@ == old(out)@ + blanks(pad as int) + digits@.reverse().take(count - left),
        decreases left,
    {
        left -= 1;
        out.push(digits[left]);
    }
}

} // verus!

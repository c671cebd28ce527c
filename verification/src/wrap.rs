//! 64-bit words: the value of a sum that wraps around.

use vstd::prelude::*;

verus! {

/// The number of 64-bit words.
pub const WORDS: u128 = 0x1_0000_0000_0000_0000;

/// `n` as an unsigned 64-bit word.
pub open spec fn word(n: int) -> int {
    n % 0x1_0000_0000_0000_0000
}

/// `n` as a signed 64-bit word.
pub open spec fn signed_word(n: int) -> int {
    (n + 0x8000_0000_0000_0000) % 0x1_0000_0000_0000_0000 - 0x8000_0000_0000_0000
}

/// `n` as an unsigned 64-bit word.
pub fn low_word(n: u128) -> (r: u64)
    ensures
        r == word(n as int),
{
    (n % WORDS) as u64
}

/// `n` as a signed 64-bit word.
pub fn low_signed_word(n: i128) -> (r: i64)
    requires
        -0x10_0000_0000_0000_0000_0000_0000 <= n <= 0x10_0000_0000_0000_0000_0000_0000,
    ensures
        r == signed_word(n as int),
{
    // A multiple of the number of words makes the operand positive.
    let shifted: u128 = (n + 0x10_0000_0000_0000_0000_0000_0000 + 0x8000_0000_0000_0000) as u128;
    let m: u128 = shifted % WORDS;
    assert(0x10_0000_0000_0000_0000_0000_0000 == 0x10_0000_0000 * 0x1_0000_0000_0000_0000);
    (m as i128 - 0x8000_0000_0000_0000) as i64
}

/// A sum may wrap around at every step.
pub proof fn lemma_word_sum(a: int, b: int)
    ensures
        word(word(a) + b) == word(a + b),
{
}

} // verus!

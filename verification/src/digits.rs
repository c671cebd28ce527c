//! Decimal notation: writing and reading integers.

use crate::text::chars_of;
use vstd::prelude::*;

verus! {

// ---------------------------------------------------------------------------
// writing
// ---------------------------------------------------------------------------

/// The character for the digit `d`.
pub open spec fn digit(d: int) -> char {
    (48 + d) as char
}

/// `n` in decimal notation, without leading zeros.
pub open spec fn decimal(n: nat) -> Seq<char>
    decreases n,
{
    if n < 10 {
        seq![digit(n as int)]
    } else {
        decimal(n / 10).push(digit((n % 10) as int))
    }
}

/// `n` in decimal notation, with at least two digits.
pub open spec fn two_digits(n: nat) -> Seq<char> {
    if n < 10 {
        "0"@ + decimal(n)
    } else {
        decimal(n)
    }
}

/// `n` in decimal notation, with a minus sign where it is negative.
pub open spec fn signed_decimal(n: int) -> Seq<char> {
    if n < 0 {
        "-"@ + decimal((-n) as nat)
    } else {
        decimal(n as nat)
    }
}

/// `n` in decimal notation.
pub fn show(n: u64) -> (r: String)
    ensures
        r@ == decimal(n as nat),
    decreases n,
{
    if n < 10 {
        let mut s = String::new();
        s.push((48 + n as u8) as char);
        s
    } else {
        let mut s = show(n / 10);
        s.push((48 + (n % 10) as u8) as char);
        s
    }
}

/// `n` in decimal notation, with at least two digits.
pub fn show_two(n: u64) -> (r: String)
    ensures
        r@ == two_digits(n as nat),
{
    if n < 10 {
        let mut s = "0".to_owned();
        s.append(show(n).as_str());
        s
    } else {
        show(n)
    }
}

/// `n` in decimal notation, with a minus sign where it is negative.
pub fn show_signed(n: i64) -> (r: String)
    ensures
        r@ == signed_decimal(n as int),
{
    if n < 0 {
        let mut s = "-".to_owned();
        let m: u64 = (-(n + 1)) as u64 + 1;
        s.append(show(m).as_str());
        s
    } else {
        show(n as u64)
    }
}

/// Decimal notation has at least one character, and only digits.
pub proof fn lemma_decimal_digits(n: nat)
    ensures
        decimal(n).len() >= 1,
        all_digits(decimal(n)),
    decreases n,
{
    if n >= 10 {
        lemma_decimal_digits(n / 10);
    }
}

// ---------------------------------------------------------------------------
// reading
// ---------------------------------------------------------------------------

/// Is `c` one of `0` to `9`?
pub open spec fn is_digit(c: char) -> bool {
    '0' <= c <= '9'
}

/// Are the characters of `s` digits, all of them?
pub open spec fn all_digits(s: Seq<char>) -> bool {
    forall|i: int| 0 <= i < s.len() ==> is_digit(#[trigger] s[i])
}

/// The number that the digits `s` write.
pub open spec fn digits_value(s: Seq<char>) -> nat
    decreases s.len(),
{
    if s.len() == 0 {
        0
    } else {
        (digits_value(s.drop_last()) * 10 + (s.last() as int - 48)) as nat
    }
}

/// `s` without the sign `c` in front of it.
pub open spec fn unsigned_part(s: Seq<char>, c: char) -> Seq<char> {
    if s.len() > 0 && s[0] == c {
        s.skip(1)
    } else {
        s
    }
}

/// The number up to `max` that `s` writes: digits, after a plus sign or none.
pub open spec fn read_nat(s: Seq<char>, max: nat) -> Option<nat> {
    let d = unsigned_part(s, '+');
    if d.len() > 0 && all_digits(d) && digits_value(d) <= max {
        Some(digits_value(d))
    } else {
        None
    }
}

/// The 64-bit number that `s` writes: digits, after a plus sign, a minus sign or none.
pub open spec fn read_int(s: Seq<char>) -> Option<int> {
    if s.len() > 0 && s[0] == '-' {
        let d = s.skip(1);
        if d.len() > 0 && all_digits(d) && digits_value(d) <= 0x8000_0000_0000_0000 {
            Some(-(digits_value(d) as int))
        } else {
            None
        }
    } else {
        match read_nat(s, 0x7fff_ffff_ffff_ffff) {
            Some(n) => Some(n as int),
            None => None,
        }
    }
}

/// More digits write no smaller number.
proof fn lemma_value_grows(s: Seq<char>, i: int)
    requires
        0 <= i <= s.len(),
        all_digits(s),
    ensures
        digits_value(s.take(i)) <= digits_value(s),
    decreases s.len(),
{
    if i < s.len() {
        assert(s.drop_last().take(i) == s.take(i));
        assert(all_digits(s.drop_last()));
        lemma_value_grows(s.drop_last(), i);
        assert(is_digit(s[s.len() - 1]));
    } else {
        assert(s.take(i) == s);
    }
}

/// The number up to `max` that the characters of `v` from `from` on write, digits only.
fn read_digits(v: &Vec<char>, from: usize, max: u64) -> (r: Option<u64>)
    requires
        from <= v@.len(),
    ensures
        ({
            let d = v@.skip(from as int);
            match r {
                Some(n) => d.len() > 0 && all_digits(d) && digits_value(d) <= max && n
                    == digits_value(d),
                None => !(d.len() > 0 && all_digits(d) && digits_value(d) <= max),
            }
        }),
{
    if from == v.len() {
        return None;
    }
    let ghost d = v@.skip(from as int);
    let mut i: usize = from;
    let mut n: u64 = 0;
    assert(d.take(0) == Seq::<char>::empty());
    while i < v.len()
        invariant
            from <= i <= v@.len(),
            d == v@.skip(from as int),
            all_digits(d.take(i - from)),
            n == digits_value(d.take(i - from)),
            n <= max,
        decreases v@.len() - i,
    {
        let c = v[i];
        let ghost k = i - from;
        assert(d[k] == c);
        assert(d.take(k + 1).drop_last() == d.take(k));
        if c < '0' || c > '9' {
            assert(!is_digit(d[k]));
            return None;
        }
        let x: u64 = (c as u32 - 48) as u64;
        proof {
            if all_digits(d) {
                lemma_value_grows(d, k + 1);
            }
        }
        if n > (max / 10) {
            return None;
        }
        let m: u64 = n * 10;
        if m > max || x > max - m {
            return None;
        }
        n = m + x;
        assert forall|j: int| 0 <= j < k + 1 implies is_digit(#[trigger] d.take(k + 1)[j]) by {
            if j < k {
                assert(d.take(k)[j] == d.take(k + 1)[j]);
            }
        }
        i += 1;
    }
    assert(d.take(i - from) == d);
    Some(n)
}

/// The number up to `max` that the characters of `v` write, after a plus sign or none.
fn read_unsigned(v: &Vec<char>, max: u64) -> (r: Option<u64>)
    ensures
        match r {
            Some(n) => read_nat(v@, max as nat) == Some(n as nat),
            None => read_nat(v@, max as nat) is None,
        },
{
    assert(v@.skip(0) == v@);
    let from: usize = if v.len() > 0 && v[0] == '+' {
        1
    } else {
        0
    };
    read_digits(v, from, max)
}

/// Reads an unsigned 64-bit number.
pub fn read_u64(s: &str) -> (r: Option<u64>)
    ensures
        match r {
            Some(n) => read_nat(s@, u64::MAX as nat) == Some(n as nat),
            None => read_nat(s@, u64::MAX as nat) is None,
        },
{
    read_unsigned(&chars_of(s), u64::MAX)
}

/// Reads an unsigned number of the machine's word size.
pub fn read_usize(s: &str) -> (r: Option<usize>)
    ensures
        match r {
            Some(n) => read_nat(s@, usize::MAX as nat) == Some(n as nat),
            None => read_nat(s@, usize::MAX as nat) is None,
        },
{
    match read_unsigned(&chars_of(s), usize::MAX as u64) {
        Some(n) => Some(n as usize),
        None => None,
    }
}

/// Reads a signed 64-bit number.
pub fn read_i64(s: &str) -> (r: Option<i64>)
    ensures
        match r {
            Some(n) => read_int(s@) == Some(n as int),
            None => read_int(s@) is None,
        },
{
    let v = chars_of(s);
    if v.len() > 0 && v[0] == '-' {
        match read_digits(&v, 1, 0x8000_0000_0000_0000) {
            Some(n) => if n == 0x8000_0000_0000_0000 {
                Some(i64::MIN)
            } else {
                Some(-(n as i64))
            },
            None => None,
        }
    } else {
        match read_unsigned(&v, 0x7fff_ffff_ffff_ffff) {
            Some(n) => Some(n as i64),
            None => None,
        }
    }
}

// ---------------------------------------------------------------------------
// laws
// ---------------------------------------------------------------------------

/// Reading the decimal notation of a number gives the number back.
pub proof fn law_read_back(n: nat, max: nat)
    requires
        n <= max,
    ensures
        read_nat(decimal(n), max) == Some(n),
{
    lemma_decimal_digits(n);
    lemma_decimal_value(n);
    assert(is_digit(decimal(n)[0]));
}

/// Reading the notation of a signed 64-bit number gives the number back.
pub proof fn law_read_back_signed(n: i64)
    ensures
        read_int(signed_decimal(n as int)) == Some(n as int),
{
    if n < 0 {
        let m = (-(n as int)) as nat;
        reveal_strlit("-");
        lemma_decimal_digits(m);
        lemma_decimal_value(m);
        assert(signed_decimal(n as int).skip(1) == decimal(m));
    } else {
        law_read_back(n as nat, 0x7fff_ffff_ffff_ffff);
        lemma_decimal_digits(n as nat);
        assert(is_digit(decimal(n as nat)[0]));
    }
}

/// The digits of a number's decimal notation write the number.
proof fn lemma_decimal_value(n: nat)
    ensures
        digits_value(decimal(n)) == n,
    decreases n,
{
    if n >= 10 {
        lemma_decimal_value(n / 10);
        assert(decimal(n).drop_last() == decimal(n / 10));
        assert(decimal(n).last() == digit((n % 10) as int));
    } else {
        assert(decimal(n).drop_last() == Seq::<char>::empty());
        assert(digits_value(decimal(n).drop_last()) == 0);
        assert(decimal(n).last() == digit(n as int));
    }
}

} // verus!

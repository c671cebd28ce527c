//! Parsing and formatting helpers for the shapes PBS emits:
//! `HH:MM:SS` durations (hours may exceed 24), `123456kb` / `1000gb` sizes,
//! and `Thu Aug 20 10:57:05 2026` timestamps.

use crate::reals::{Figure, Fill, Real};
use crate::calendar;
use crate::digits;
use crate::reals;
use crate::text;
use crate::wrap;
use vstd::prelude::*;

verus! {

// ---------------------------------------------------------------------------
// durations
// ---------------------------------------------------------------------------

/// The number that the fields write in base 60, the last one counting units.
pub open spec fn sexagesimal(fields: Seq<Seq<char>>) -> Option<int>
    decreases fields.len(),
{
    if fields.len() == 0 {
        Some(0)
    } else {
        match (sexagesimal(fields.drop_last()), digits::read_nat(text::trimmed(fields.last()), u64::MAX as nat)) {
            (Some(t), Some(v)) => Some(t * 60 + v),
            _ => None,
        }
    }
}

/// The seconds that a duration of one to three fields says. Sums wrap around at 64 bits.
pub open spec fn duration(s: Seq<char>) -> Option<u64> {
    let fields = text::pieces(text::trimmed(s), ':');
    match sexagesimal(fields) {
        Some(n) if fields.len() <= 3 => Some(wrap::word(n) as u64),
        _ => None,
    }
}

/// `"397:58:40"` -> seconds. Also accepts `MM:SS` and a bare second count.
pub fn parse_hms(s: &str) -> (r: Option<u64>)
    ensures
        r == duration(s@),
{
    let t = text::trim(s);
    let fields = text::split(t.as_str(), ':');
    let ghost f = text::texts(fields@);
    if fields.len() > 3 {
        return None;
    }
    let mut total: u128 = 0;
    let mut i: usize = 0;
    assert(f.take(0) == Seq::<Seq<char>>::empty());
    while i < fields.len()
        invariant
            i <= fields@.len() <= 3,
            f == text::texts(fields@),
            f == text::pieces(text::trimmed(s@), ':'),
            sexagesimal(f.take(i as int)) == Some(total as int),
            i == 0 ==> total == 0,
            i == 1 ==> total <= 0x1_0000_0000_0000_0000,
            i == 2 ==> total <= 0x100_0000_0000_0000_0000,
        decreases fields@.len() - i,
    {
        assert(f.take(i + 1).drop_last() == f.take(i as int));
        assert(f.take(i + 1).last() == fields@[i as int]@);
        match digits::read_u64(text::trim(fields[i].as_str()).as_str()) {
            Some(v) => {
                total = total * 60 + v as u128;
            },
            None => {
                proof {
                    lemma_bad_field(f, i as int);
                }
                return None;
            },
        }
        i += 1;
    }
    assert(f.take(i as int) == f);
    Some(wrap::low_word(total))
}

/// One field that is no number spoils them all.
pub(crate) proof fn lemma_bad_field(f: Seq<Seq<char>>, i: int)
    requires
        0 <= i < f.len(),
        digits::read_nat(text::trimmed(f[i]), u64::MAX as nat) is None,
    ensures
        sexagesimal(f) is None,
    decreases f.len(),
{
    if i < f.len() - 1 {
        lemma_bad_field(f.drop_last(), i);
    }
}

/// `H:MM`.
pub open spec fn hm_text(secs: nat) -> Seq<char> {
    digits::decimal(secs / 3600) + ":"@ + digits::two_digits((secs % 3600) / 60)
}

/// `H:MM:SS`.
pub open spec fn hms_text(secs: nat) -> Seq<char> {
    digits::decimal(secs / 3600) + ":"@ + digits::two_digits((secs % 3600) / 60) + ":"@ + digits::two_digits(secs % 60)
}

/// Seconds -> `H:MM`, keeping hours uncapped (`397:58`).
pub fn hm(secs: u64) -> (r: String)
    ensures
        r@ == hm_text(secs as nat),
{
    let mut s = digits::show(secs / 3600);
    s.append(":");
    s.append(digits::show_two((secs % 3600) / 60).as_str());
    s
}

/// Seconds -> `H:MM:SS`.
pub fn hms(secs: u64) -> (r: String)
    ensures
        r@ == hms_text(secs as nat),
{
    let mut s = hm(secs);
    s.append(":");
    s.append(digits::show_two(secs % 60).as_str());
    s
}

/// The largest units of a distance in time.
pub open spec fn until_text(secs: int) -> Seq<char> {
    let s = if secs < 0 {
        0
    } else {
        secs
    };
    let d = s / 86400;
    let h = (s % 86400) / 3600;
    let m = (s % 3600) / 60;
    if d > 0 {
        digits::decimal(d as nat) + "d "@ + digits::decimal(h as nat) + "h"@
    } else if h > 0 {
        digits::decimal(h as nat) + "h "@ + digits::decimal(m as nat) + "m"@
    } else {
        digits::decimal(m as nat) + "m"@
    }
}

/// Coarse distance in time: `16d 11h`, `3h 20m`, `45m`.
pub fn until(secs: i64) -> (r: String)
    ensures
        r@ == until_text(secs as int),
{
    let s: u64 = if secs < 0 {
        0
    } else {
        secs as u64
    };
    let d: u64 = s / 86400;
    let h: u64 = (s % 86400) / 3600;
    let m: u64 = (s % 3600) / 60;
    if d > 0 {
        let mut t = digits::show(d);
        t.append("d ");
        t.append(digits::show(h).as_str());
        t.append("h");
        t
    } else if h > 0 {
        let mut t = digits::show(h);
        t.append("h ");
        t.append(digits::show(m).as_str());
        t.append("m");
        t
    } else {
        let mut t = digits::show(m);
        t.append("m");
        t
    }
}

// ---------------------------------------------------------------------------
// sizes
// ---------------------------------------------------------------------------

/// The number of digits at the start of `s`.
pub open spec fn leading_digits(s: Seq<char>) -> int
    decreases s.len(),
{
    if s.len() == 0 || !digits::is_digit(s[0]) {
        0
    } else {
        1 + leading_digits(s.skip(1))
    }
}

/// `n` units of size, in KiB.
pub open spec fn unit_kb(n: int, unit: Seq<char>) -> Option<int> {
    if unit == ""@ || unit == "b"@ {
        Some(n / 1024)
    } else if unit == "kb"@ || unit == "k"@ {
        Some(n)
    } else if unit == "mb"@ || unit == "m"@ {
        Some(n * 1024)
    } else if unit == "gb"@ || unit == "g"@ {
        Some(n * 1024 * 1024)
    } else if unit == "tb"@ || unit == "t"@ {
        Some(n * 1024 * 1024 * 1024)
    } else {
        None
    }
}

/// The KiB that a size says: digits, then a unit in either case. Products wrap around at
/// 64 bits.
pub open spec fn size_kb(s: Seq<char>) -> Option<u64> {
    let t = text::lowered(text::trimmed(s));
    let k = leading_digits(t);
    match digits::read_nat(t.take(k), u64::MAX as nat) {
        Some(n) => match unit_kb(n as int, text::trimmed(t.skip(k))) {
            Some(kb) => Some(wrap::word(kb) as u64),
            None => None,
        },
        None => None,
    }
}

/// `s` with the letters `A` to `Z` in lower case.
fn lower(s: &str) -> (r: Vec<char>)
    ensures
        r@ == text::lowered(s@),
{
    let v = text::chars_of(s);
    let mut out: Vec<char> = Vec::new();
    let mut i: usize = 0;
    while i < v.len()
        invariant
            i <= v@.len(),
            v@ == s@,
            out@ == text::lowered(v@).take(i as int),
        decreases v@.len() - i,
    {
        let c = v[i];
        if 'A' <= c && c <= 'Z' {
            out.push((c as u8 + 32) as char);
        } else {
            out.push(c);
        }
        i += 1;
    }
    out
}

/// `"189946940kb"`, `"1000gb"`, `"524288000kb"` -> KiB.
pub fn parse_size_kb(s: &str) -> (r: Option<u64>)
    ensures
        r == size_kb(s@),
{
    let t = lower(text::trim(s).as_str());
    let mut k: usize = 0;
    assert(t@.skip(0) == t@);
    while k < t.len() && '0' <= t[k] && t[k] <= '9'
        invariant
            k <= t@.len(),
            k + leading_digits(t@.skip(k as int)) == leading_digits(t@),
        decreases t@.len() - k,
    {
        assert(t@.skip(k as int).skip(1) == t@.skip(k + 1));
        k += 1;
    }
    let num = text::text_of(&t, 0, k);
    let rest = text::text_of(&t, k, t.len());
    assert(num@ == t@.take(k as int));
    assert(rest@ == t@.skip(k as int));
    let unit = text::trim(rest.as_str());
    let n: u128 = match digits::read_u64(num.as_str()) {
        Some(n) => n as u128,
        None => {
            return None;
        },
    };
    let u = unit.as_str();
    if text::same(u, "") || text::same(u, "b") {
        Some(wrap::low_word(n / 1024))
    } else if text::same(u, "kb") || text::same(u, "k") {
        Some(wrap::low_word(n))
    } else if text::same(u, "mb") || text::same(u, "m") {
        Some(wrap::low_word(n * 1024))
    } else if text::same(u, "gb") || text::same(u, "g") {
        Some(wrap::low_word(n * 1024 * 1024))
    } else if text::same(u, "tb") || text::same(u, "t") {
        Some(wrap::low_word(n * 1024 * 1024 * 1024))
    } else {
        None
    }
}

/// The integer nearest to `a / b`; of two, the even one.
pub open spec fn nearest(a: int, b: int) -> int {
    let q = a / b;
    let r = a % b;
    if 2 * r > b || (2 * r == b && q % 2 == 1) {
        q + 1
    } else {
        q
    }
}

/// The distance between the binary64 numbers around `n`, at least 1.
pub open spec fn spacing(n: int) -> int
    decreases n,
{
    if n < 0x20_0000_0000_0000 {
        1
    } else {
        2 * spacing(n / 2)
    }
}

/// The binary64 number nearest to `n`.
pub open spec fn binary64(n: int) -> int {
    nearest(n, spacing(n)) * spacing(n)
}

/// The names of the units of size; each is 1024 of the one before.
pub open spec fn unit_name(u: int) -> Seq<char> {
    if u == 0 {
        "KiB"@
    } else if u == 1 {
        "MiB"@
    } else if u == 2 {
        "GiB"@
    } else {
        "TiB"@
    }
}

/// KiB in the largest unit up to TiB that they fill, with one decimal below 100.
pub open spec fn size_text(kb: int) -> Seq<char> {
    let v = binary64(kb);
    let (u, scale) = if v < 1024 {
        (0int, 1int)
    } else if v < 1024 * 1024 {
        (1int, 1024int)
    } else if v < 1024 * 1024 * 1024 {
        (2int, 1024 * 1024int)
    } else {
        (3int, 1024 * 1024 * 1024int)
    };
    if v >= 100 * scale || u == 0 {
        digits::decimal(nearest(v, scale) as nat) + " "@ + unit_name(u)
    } else {
        let t = nearest(10 * v, scale);
        digits::decimal((t / 10) as nat) + "."@ + digits::decimal((t % 10) as nat) + " "@ + unit_name(u)
    }
}

/// The integer nearest to `a / b`; of two, the even one.
fn round_div(a: u128, b: u128) -> (r: u128)
    requires
        0 < b < 0x1_0000_0000_0000_0000,
        a < 0x1_0000_0000_0000_0000_0000,
    ensures
        r == nearest(a as int, b as int),
        r <= a + 1,
{
    let q: u128 = a / b;
    let r: u128 = a % b;
    proof {
        assert(q <= a) by (nonlinear_arith)
            requires
                q == a / b,
                b > 0,
        ;
    }
    if 2 * r > b || (2 * r == b && q % 2 == 1) {
        q + 1
    } else {
        q
    }
}

/// The distance between the binary64 numbers around `n`.
fn spacing_of(n: u64) -> (r: u128)
    ensures
        r == spacing(n as int),
        0 < r,
        r == 1 || r <= n,
    decreases n,
{
    if n < 0x20_0000_0000_0000 {
        1
    } else {
        2 * spacing_of(n / 2)
    }
}

/// Rounding a quotient adds at most 1.
proof fn lemma_nearest_bound(a: int, b: int)
    requires
        0 <= a,
        1 <= b,
    ensures
        0 <= a / b <= nearest(a, b) <= a / b + 1,
        (a / b) * b <= a,
        a / b <= a,
        b >= 1024 ==> (a / b) * 1024 <= a,
{
    assert(0 <= a / b && (a / b) * b <= a && a / b <= a) by (nonlinear_arith)
        requires
            0 <= a,
            1 <= b,
    ;
    if b >= 1024 {
        assert((a / b) * 1024 <= (a / b) * b) by (nonlinear_arith)
            requires
                0 <= a / b,
                b >= 1024,
        ;
    }
}

/// Rounding to a binary64 number at most doubles.
proof fn lemma_binary64_bound(n: int)
    requires
        0 <= n,
        0 < spacing(n) <= n + 1,
    ensures
        0 <= binary64(n) <= 2 * n + 1,
{
    let s = spacing(n);
    lemma_nearest_bound(n, s);
    let q = n / s;
    let k = nearest(n, s);
    assert(0 <= k * s <= n + s) by (nonlinear_arith)
        requires
            0 <= q <= k <= q + 1,
            q * s <= n,
            0 < s,
    ;
}

/// KiB -> a short human size (`181 GiB`).
pub fn size(kb: u64) -> (r: String)
    ensures
        r@ == size_text(kb as int),
{
    let ulp: u128 = spacing_of(kb);
    let count: u128 = round_div(kb as u128, ulp);
    proof {
        lemma_binary64_bound(kb as int);
        assert(count * ulp == binary64(kb as int));
    }
    let v: u128 = count * ulp;
    let (unit, scale): (&str, u128) = if v < 1024 {
        ("KiB", 1)
    } else if v < 1024 * 1024 {
        ("MiB", 1024)
    } else if v < 1024 * 1024 * 1024 {
        ("GiB", 1024 * 1024)
    } else {
        ("TiB", 1024 * 1024 * 1024)
    };
    proof {
        lemma_nearest_bound(v as int, scale as int);
    }
    if v >= 100 * scale || v < 1024 {
        let mut s = digits::show(round_div(v, scale) as u64);
        s.append(" ");
        s.append(unit);
        s
    } else {
        proof {
            lemma_nearest_bound(10 * v as int, scale as int);
        }
        let t: u128 = round_div(10 * v, scale);
        let mut s = digits::show((t / 10) as u64);
        s.append(".");
        s.append(digits::show((t % 10) as u64).as_str());
        s.append(" ");
        s.append(unit);
        s
    }
}

// ---------------------------------------------------------------------------
// points
// ---------------------------------------------------------------------------

/// Digits in groups of three, with a comma between the groups.
pub open spec fn grouped(s: Seq<char>) -> Seq<char>
    decreases s.len(),
{
    if s.len() <= 3 {
        s
    } else {
        grouped(s.take(s.len() - 3)) + ","@ + s.skip(s.len() - 3)
    }
}

/// A number rounded to an integer, with a minus sign below 0 and thousands separators.
pub open spec fn commas_text(v: Figure) -> Seq<char> {
    if (Real { bits: reals::BITS_ZERO }).above(v.value) {
        "-"@ + grouped(digits::decimal(v.rounded as nat))
    } else {
        grouped(digits::decimal(v.rounded as nat))
    }
}

/// `s` without the `.0` at its end, as often as it is there.
pub open spec fn without_zero_tenth(s: Seq<char>) -> Seq<char>
    decreases s.len(),
{
    if s.len() >= 2 && s.skip(s.len() - 2) == seq!['.', '0'] {
        without_zero_tenth(s.take(s.len() - 2))
    } else {
        s
    }
}

/// A count of points: one decimal between 0 and 10, thousands separators elsewhere.
pub open spec fn points_text(v: Figure) -> Seq<char> {
    if v.value.above(Real { bits: reals::BITS_ZERO }) && (Real { bits: reals::BITS_TEN }).above(v.value) {
        without_zero_tenth(v.tenth@)
    } else {
        commas_text(v)
    }
}

/// The first `to` digits in groups of three.
fn group(v: &Vec<char>, to: usize) -> (r: String)
    requires
        to <= v@.len(),
    ensures
        r@ == grouped(v@.take(to as int)),
    decreases to,
{
    if to <= 3 {
        text::text_of(v, 0, to)
    } else {
        let mut s = group(v, to - 3);
        let ghost all = v@.take(to as int);
        assert(all.take(to - 3) == v@.take(to - 3));
        s.append(",");
        let last = text::text_of(v, to - 3, to);
        assert(last@ == all.skip(to - 3));
        s.append(last.as_str());
        s
    }
}

/// Thousands separators for integers.
pub fn thousands(n: u64) -> (r: String)
    ensures
        r@ == grouped(digits::decimal(n as nat)),
{
    let v = text::chars_of(digits::show(n).as_str());
    assert(v@.take(v@.len() as int) == v@);
    group(&v, v.len())
}

/// Thousands separators for point counts.
pub fn commas(v: &Figure) -> (r: String)
    ensures
        r@ == commas_text(*v),
{
    let digits = thousands(v.rounded);
    if (Real { bits: reals::BITS_ZERO }).gt(&v.value) {
        let mut s = "-".to_owned();
        s.append(digits.as_str());
        s
    } else {
        digits
    }
}

/// Point counts: keep a decimal below 10 pt (a short rt_QC job costs 0.5 pt),
/// thousands separators above it.
pub fn points(v: &Figure) -> (r: String)
    ensures
        r@ == points_text(*v),
{
    if v.value.gt(&Real { bits: reals::BITS_ZERO }) && (Real { bits: reals::BITS_TEN }).gt(&v.value) {
        let t = text::chars_of(v.tenth.as_str());
        let mut to: usize = t.len();
        assert(t@.take(to as int) == t@);
        while to >= 2 && t[to - 2] == '.' && t[to - 1] == '0'
            invariant
                to <= t@.len(),
                without_zero_tenth(t@.take(to as int)) == without_zero_tenth(t@),
            decreases to,
        {
            let ghost all = t@.take(to as int);
            assert(all.skip(to - 2) == seq!['.', '0']);
            assert(all.take(to - 2) == t@.take(to - 2));
            to -= 2;
        }
        proof {
            let all = t@.take(to as int);
            if to >= 2 && all.skip(to - 2) == seq!['.', '0'] {
                assert(all.skip(to - 2)[0] == t@[to - 2]);
                assert(all.skip(to - 2)[1] == t@[to - 1]);
            }
        }
        text::text_of(&t, 0, to)
    } else {
        commas(v)
    }
}

// ---------------------------------------------------------------------------
// dates
// ---------------------------------------------------------------------------

/// The short name of month `m`.
pub open spec fn month_name(m: int) -> Seq<char> {
    if m == 1 {
        "Jan"@
    } else if m == 2 {
        "Feb"@
    } else if m == 3 {
        "Mar"@
    } else if m == 4 {
        "Apr"@
    } else if m == 5 {
        "May"@
    } else if m == 6 {
        "Jun"@
    } else if m == 7 {
        "Jul"@
    } else if m == 8 {
        "Aug"@
    } else if m == 9 {
        "Sep"@
    } else if m == 10 {
        "Oct"@
    } else if m == 11 {
        "Nov"@
    } else {
        "Dec"@
    }
}

/// The month with the short name `s`.
pub open spec fn month_named(s: Seq<char>) -> Option<int> {
    if exists|m: int| 1 <= m <= 12 && #[trigger] month_name(m) == s {
        Some(choose|m: int| 1 <= m <= 12 && #[trigger] month_name(m) == s)
    } else {
        None
    }
}

/// The short name of month `m`.
fn name_of_month(m: i64) -> (r: &'static str)
    requires
        1 <= m <= 12,
    ensures
        r@ == month_name(m as int),
{
    if m == 1 {
        "Jan"
    } else if m == 2 {
        "Feb"
    } else if m == 3 {
        "Mar"
    } else if m == 4 {
        "Apr"
    } else if m == 5 {
        "May"
    } else if m == 6 {
        "Jun"
    } else if m == 7 {
        "Jul"
    } else if m == 8 {
        "Aug"
    } else if m == 9 {
        "Sep"
    } else if m == 10 {
        "Oct"
    } else if m == 11 {
        "Nov"
    } else {
        "Dec"
    }
}

/// The second and the third letter of the name of month `m`.
spec fn month_letters(m: int) -> (char, char) {
    if m == 1 {
        ('a', 'n')
    } else if m == 2 {
        ('e', 'b')
    } else if m == 3 {
        ('a', 'r')
    } else if m == 4 {
        ('p', 'r')
    } else if m == 5 {
        ('a', 'y')
    } else if m == 6 {
        ('u', 'n')
    } else if m == 7 {
        ('u', 'l')
    } else if m == 8 {
        ('u', 'g')
    } else if m == 9 {
        ('e', 'p')
    } else if m == 10 {
        ('c', 't')
    } else if m == 11 {
        ('o', 'v')
    } else {
        ('e', 'c')
    }
}

/// The letters of the name of month `m`.
proof fn lemma_month_letters(m: int)
    requires
        1 <= m <= 12,
    ensures
        month_name(m)[1] == month_letters(m).0,
        month_name(m)[2] == month_letters(m).1,
{
    if m == 1 {
        reveal_strlit("Jan");
    } else if m == 2 {
        reveal_strlit("Feb");
    } else if m == 3 {
        reveal_strlit("Mar");
    } else if m == 4 {
        reveal_strlit("Apr");
    } else if m == 5 {
        reveal_strlit("May");
    } else if m == 6 {
        reveal_strlit("Jun");
    } else if m == 7 {
        reveal_strlit("Jul");
    } else if m == 8 {
        reveal_strlit("Aug");
    } else if m == 9 {
        reveal_strlit("Sep");
    } else if m == 10 {
        reveal_strlit("Oct");
    } else if m == 11 {
        reveal_strlit("Nov");
    } else {
        reveal_strlit("Dec");
    }
}

/// No two months share a name.
pub proof fn lemma_month_names(a: int, b: int)
    requires
        1 <= a <= 12,
        1 <= b <= 12,
        month_name(a) == month_name(b),
    ensures
        a == b,
{
    lemma_month_letters(a);
    lemma_month_letters(b);
    assert(month_letters(a) == month_letters(b));
}

/// The month with the short name `s`.
fn month_by_name(s: &str) -> (r: Option<i64>)
    ensures
        match r {
            Some(m) => month_named(s@) == Some(m as int) && 1 <= m <= 12,
            None => month_named(s@) is None,
        },
{
    let mut m: i64 = 1;
    while m <= 12
        invariant
            1 <= m <= 13,
            forall|k: int| 1 <= k < m ==> #[trigger] month_name(k) != s@,
        decreases 13 - m,
    {
        if text::same(name_of_month(m), s) {
            proof {
                let c = choose|k: int| 1 <= k <= 12 && #[trigger] month_name(k) == s@;
                lemma_month_names(m as int, c);
            }
            return Some(m);
        }
        m += 1;
    }
    None
}

/// The numbers among the texts.
pub open spec fn numbers(p: Seq<Seq<char>>) -> Seq<int>
    decreases p.len(),
{
    if p.len() == 0 {
        seq![]
    } else {
        match digits::read_int(p.last()) {
            Some(n) => numbers(p.drop_last()).push(n),
            None => numbers(p.drop_last()),
        }
    }
}

/// The Unix time that a PBS timestamp says, at `tz` seconds east of Greenwich: weekday,
/// month, day, clock and year. The clock has three numbers; a field of it that is none is
/// passed over. Sums wrap around at 64 bits.
pub open spec fn pbs_date(s: Seq<char>, tz: int) -> Option<i64> {
    let f = text::words(s);
    if f.len() < 5 {
        None
    } else {
        let clock = numbers(text::pieces(f[3], ':'));
        match (month_named(f[1]), digits::read_int(f[2]), digits::read_int(f[4])) {
            (Some(m), Some(d), Some(y)) if clock.len() == 3 => Some(
                wrap::signed_word(
                    calendar::days_since_epoch(y, m, d) * 86400 + clock[0] * 3600 + clock[1] * 60 + clock[2]
                        - tz,
                ) as i64,
            ),
            _ => None,
        }
    }
}

/// The numbers among the texts.
fn read_numbers(p: &Vec<String>) -> (r: Vec<i64>)
    ensures
        r@.len() == numbers(text::texts(p@)).len(),
        forall|i: int| 0 <= i < r@.len() ==> #[trigger] r@[i] == numbers(text::texts(p@))[i],
{
    let mut out: Vec<i64> = Vec::new();
    let ghost all = text::texts(p@);
    let mut i: usize = 0;
    while i < p.len()
        invariant
            i <= p@.len(),
            all == text::texts(p@),
            out@.len() == numbers(all.take(i as int)).len(),
            forall|k: int|
                0 <= k < out@.len() ==> #[trigger] out@[k] == numbers(all.take(i as int))[k],
        decreases p@.len() - i,
    {
        assert(all.take(i + 1).drop_last() == all.take(i as int));
        match digits::read_i64(p[i].as_str()) {
            Some(n) => {
                out.push(n);
            },
            None => {},
        }
        i += 1;
    }
    assert(all.take(i as int) == all);
    out
}

/// `"Thu Aug 20 10:57:05 2026"` -> Unix epoch, given the local UTC offset.
pub fn parse_pbs_date(s: &str, tz_offset_secs: i64) -> (r: Option<i64>)
    ensures
        r == pbs_date(s@, tz_offset_secs as int),
{
    let f = text::split_whitespace(s);
    let ghost w = text::words(s@);
    assert(w.len() == f@.len());
    if f.len() < 5 {
        return None;
    }
    assert(w[1] == f@[1]@ && w[2] == f@[2]@ && w[3] == f@[3]@ && w[4] == f@[4]@);
    let month: i64 = match month_by_name(f[1].as_str()) {
        Some(m) => m,
        None => {
            return None;
        },
    };
    let day: i64 = match digits::read_i64(f[2].as_str()) {
        Some(d) => d,
        None => {
            return None;
        },
    };
    let year: i64 = match digits::read_i64(f[4].as_str()) {
        Some(y) => y,
        None => {
            return None;
        },
    };
    let clock = read_numbers(&text::split(f[3].as_str(), ':'));
    if clock.len() != 3 {
        return None;
    }
    let days: i128 = calendar::days_from_civil(year, month, day);
    let secs: i128 = days * 86400 + clock[0] as i128 * 3600 + clock[1] as i128 * 60
        + clock[2] as i128 - tz_offset_secs as i128;
    Some(wrap::low_signed_word(secs))
}

/// Day, month and clock of a Unix time, `tz` seconds east of Greenwich.
pub open spec fn datetime_text(epoch: int, tz: int) -> Seq<char> {
    let local = wrap::signed_word(epoch + tz);
    let secs = local % 86400;
    let date = calendar::date_of(local / 86400);
    digits::decimal(date.2 as nat) + " "@ + month_name(date.1) + " "@ + digits::two_digits((secs / 3600) as nat)
        + ":"@ + digits::two_digits(((secs % 3600) / 60) as nat)
}

/// The local time of day.
pub open spec fn clock_text(epoch: int, tz: int) -> Seq<char> {
    let secs = wrap::signed_word(epoch + tz) % 86400;
    digits::two_digits((secs / 3600) as nat) + ":"@ + digits::two_digits(((secs % 3600) / 60) as nat)
}

/// The number of the local day.
pub open spec fn local_day(epoch: int, tz: int) -> int {
    wrap::signed_word(epoch + tz) / 86400
}

/// The number of the local day, and the seconds since its start.
fn local_parts(epoch: i64, tz_offset_secs: i64) -> (r: (i64, u64))
    ensures
        r.0 == local_day(epoch as int, tz_offset_secs as int),
        r.1 == wrap::signed_word(epoch + tz_offset_secs) % 86400,
        r.1 < 86400,
{
    let local: i64 = wrap::low_signed_word(epoch as i128 + tz_offset_secs as i128);
    // A multiple of the length of a day makes the operand positive.
    let shifted: u128 = (local as i128 + 86400 * 0x1_0000_0000_0000) as u128;
    let days: i64 = ((shifted / 86400) as i128 - 0x1_0000_0000_0000) as i64;
    let secs: u64 = (shifted % 86400) as u64;
    assert(days == local as int / 86400 && secs == local as int % 86400);
    (days, secs)
}

/// Epoch -> `10:57` in local time.
pub fn clock(epoch: i64, tz_offset_secs: i64) -> (r: String)
    ensures
        r@ == clock_text(epoch as int, tz_offset_secs as int),
{
    let (_, secs) = local_parts(epoch, tz_offset_secs);
    let mut s = digits::show_two(secs / 3600);
    s.append(":");
    s.append(digits::show_two((secs % 3600) / 60).as_str());
    s
}

/// Are two times on the same local day?
pub fn same_day(a: i64, b: i64, tz_offset_secs: i64) -> (r: bool)
    ensures
        r == (local_day(a as int, tz_offset_secs as int) == local_day(
            b as int,
            tz_offset_secs as int,
        )),
{
    local_parts(a, tz_offset_secs).0 == local_parts(b, tz_offset_secs).0
}

/// Epoch -> `20 Aug 10:57` in local time.
pub fn short_datetime(epoch: i64, tz_offset_secs: i64) -> (r: String)
    ensures
        r@ == datetime_text(epoch as int, tz_offset_secs as int),
{
    let (days, secs) = local_parts(epoch, tz_offset_secs);
    let (y, m, d) = calendar::civil_from_days(days);
    let mut s = digits::show(d as u64);
    s.append(" ");
    s.append(name_of_month(m));
    s.append(" ");
    s.append(digits::show_two(secs / 3600).as_str());
    s.append(":");
    s.append(digits::show_two((secs % 3600) / 60).as_str());
    s
}

// ---------------------------------------------------------------------------
// cells
// ---------------------------------------------------------------------------

/// The smaller of two numbers.
pub open spec fn least(a: int, b: int) -> int {
    if a < b {
        a
    } else {
        b
    }
}

/// A cell with `rem` of its eighths filled, from the left.
pub open spec fn partial(rem: int) -> char {
    if rem == 1 {
        '▏'
    } else if rem == 2 {
        '▎'
    } else if rem == 3 {
        '▍'
    } else if rem == 4 {
        '▌'
    } else if rem == 5 {
        '▋'
    } else if rem == 6 {
        '▊'
    } else {
        '▉'
    }
}

/// A bar `width` cells wide: full cells, a partial one for the remaining eighths, and
/// empty ones. In ASCII there are no partial cells.
pub open spec fn bar_text(fill: Fill, width: nat, ascii: bool) -> Seq<char> {
    if ascii {
        let filled = least(fill.cells as int, width as int) as nat;
        text::repeated('#', filled) + text::repeated('-', (width - filled) as nat)
    } else {
        let full = least(fill.eighths as int / 8, width as int) as nat;
        let rem = fill.eighths as int % 8;
        if rem > 0 && full < width {
            text::repeated('█', full).push(partial(rem)) + text::repeated('░', (width - full - 1) as nat)
        } else {
            text::repeated('█', full) + text::repeated('░', (width - full) as nat)
        }
    }
}

/// A proportional bar `width` cells wide, using eighth-blocks for the remainder.
pub fn bar(fill: &Fill, width: usize, ascii: bool) -> (r: String)
    ensures
        r@ == bar_text(*fill, width as nat, ascii),
{
    let mut s = String::new();
    if ascii {
        let filled: usize = if fill.cells < width {
            fill.cells
        } else {
            width
        };
        text::push_repeated(&mut s, '#', filled);
        text::push_repeated(&mut s, '-', width - filled);
        return s;
    }
    let full: usize = if fill.eighths / 8 < width {
        fill.eighths / 8
    } else {
        width
    };
    let rem: usize = fill.eighths % 8;
    text::push_repeated(&mut s, '█', full);
    if rem > 0 && full < width {
        s.push(
            if rem == 1 {
                '▏'
            } else if rem == 2 {
                '▎'
            } else if rem == 3 {
                '▍'
            } else if rem == 4 {
                '▌'
            } else if rem == 5 {
                '▋'
            } else if rem == 6 {
                '▊'
            } else {
                '▉'
            },
        );
        text::push_repeated(&mut s, '░', width - full - 1);
    } else {
        text::push_repeated(&mut s, '░', width - full);
    }
    s
}

/// `s`, shortened to `max` characters where it is longer, the last of them an ellipsis.
pub open spec fn ellipsized(s: Seq<char>, max: nat) -> Seq<char> {
    if s.len() <= max {
        s
    } else if max == 0 {
        Seq::empty()
    } else {
        s.take(max - 1).push('…')
    }
}

/// `s`, with spaces behind it up to `width` characters.
pub open spec fn padded(s: Seq<char>, width: nat) -> Seq<char> {
    if s.len() >= width {
        s
    } else {
        s + text::repeated(' ', (width - s.len()) as nat)
    }
}

/// `s`, with spaces before it up to `width` characters.
pub open spec fn right_aligned(s: Seq<char>, width: nat) -> Seq<char> {
    if s.len() >= width {
        s
    } else {
        text::repeated(' ', (width - s.len()) as nat) + s
    }
}

/// Truncate to `max` display cells, marking elision.
pub fn ellipsize(s: &str, max: usize) -> (r: String)
    ensures
        r@ == ellipsized(s@, max as nat),
{
    let v = text::chars_of(s);
    if v.len() <= max {
        return s.to_owned();
    }
    if max == 0 {
        return String::new();
    }
    let mut t = text::text_of(&v, 0, max - 1);
    t.push('…');
    t
}

/// Pad to `width` display cells (no-op if already wider).
pub fn pad(s: &str, width: usize) -> (r: String)
    ensures
        r@ == padded(s@, width as nat),
{
    let count: usize = s.unicode_len();
    let mut t = s.to_owned();
    if count < width {
        text::push_repeated(&mut t, ' ', width - count);
    }
    t
}

/// Right-align within `width` cells.
pub fn rpad(s: &str, width: usize) -> (r: String)
    ensures
        r@ == right_aligned(s@, width as nat),
{
    let count: usize = s.unicode_len();
    let mut t = String::new();
    if count < width {
        text::push_repeated(&mut t, ' ', width - count);
    }
    t.append(s);
    t
}

} // verus!

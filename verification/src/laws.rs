//! Laws of the notations: what is written can be read back, and cells keep their width.

use crate::reals::Fill;
use crate::calendar;
use crate::digits;
use crate::fmt;
use crate::logtext;
use crate::text;
use vstd::prelude::*;

verus! {

// ---------------------------------------------------------------------------
// texts
// ---------------------------------------------------------------------------

/// A text that starts and ends with no white space is its own trimmed text.
proof fn lemma_trimmed_same(s: Seq<char>)
    requires
        s.len() > 0 ==> !text::is_space(s[0]) && !text::is_space(s.last()),
    ensures
        text::trimmed(s) == s,
{
}

/// The pieces of a text whose first piece is `a`.
proof fn lemma_pieces(a: Seq<char>, c: char, rest: Seq<char>)
    requires
        forall|i: int| 0 <= i < a.len() ==> a[i] != c,
    ensures
        text::pieces(a + seq![c] + rest, c) == seq![a] + text::pieces(rest, c),
{
    let s = a + seq![c] + rest;
    text::lemma_first_at(s, c);
    let n = text::first_at(s, c);
    assert(s[a.len() as int] == c);
    if n < a.len() {
        assert(s[n] == a[n]);
    }
    assert(n == a.len());
    assert(s.take(n) == a);
    assert(s.skip(n + 1) == rest);
}

/// A text without `c` is one piece.
proof fn lemma_one_piece(a: Seq<char>, c: char)
    requires
        forall|i: int| 0 <= i < a.len() ==> a[i] != c,
    ensures
        text::pieces(a, c) == seq![a],
{
    text::lemma_first_at(a, c);
}

/// Two digits are digits, and write the number.
proof fn lemma_two_digits(n: nat, max: nat)
    requires
        n <= max,
    ensures
        digits::two_digits(n).len() >= 2,
        digits::all_digits(digits::two_digits(n)),
        digits::read_nat(digits::two_digits(n), max) == Some(n),
{
    reveal_strlit("0");
    digits::lemma_decimal_digits(n);
    digits::law_read_back(n, max);
    let s = digits::two_digits(n);
    let d = digits::decimal(n);
    assert(digits::is_digit(d[0]));
    if n < 10 {
        assert(s == seq!['0'] + d);
        assert(d.len() == 1);
        assert forall|i: int| 0 <= i < s.len() implies digits::is_digit(#[trigger] s[i]) by {
            if i > 0 {
                assert(s[i] == d[i - 1]);
            }
        }
        assert(s.drop_last() == seq!['0']);
        assert(seq!['0'].drop_last() == Seq::<char>::empty());
        reveal_with_fuel(digits::digits_value, 3);
        assert(digits::digits_value(s) == n);
    } else {
        assert(d.drop_last() == digits::decimal(n / 10));
        digits::lemma_decimal_digits(n / 10);
    }
}

/// Digits are neither white space nor colons.
proof fn lemma_digits_plain(s: Seq<char>)
    requires
        digits::all_digits(s),
        s.len() > 0,
    ensures
        text::trimmed(s) == s,
        forall|i: int| 0 <= i < s.len() ==> s[i] != ':',
        forall|i: int| 0 <= i < s.len() ==> s[i] != ',',
{
    assert(digits::is_digit(s[0]));
    assert(digits::is_digit(s[s.len() - 1]));
    assert forall|i: int| 0 <= i < s.len() implies s[i] != ':' && s[i] != ',' by {
        assert(digits::is_digit(s[i]));
    }
    lemma_trimmed_same(s);
}

// ---------------------------------------------------------------------------
// durations
// ---------------------------------------------------------------------------

/// The fields of `a:b:c`.
proof fn lemma_three_fields(a: Seq<char>, b: Seq<char>, c: Seq<char>)
    requires
        digits::all_digits(a) && a.len() > 0,
        digits::all_digits(b) && b.len() > 0,
        digits::all_digits(c) && c.len() > 0,
    ensures
        text::pieces(a + ":"@ + b + ":"@ + c, ':') == seq![a, b, c],
        text::trimmed(a + ":"@ + b + ":"@ + c) == a + ":"@ + b + ":"@ + c,
{
    reveal_strlit(":");
    let s = a + ":"@ + b + ":"@ + c;
    assert(":"@ == seq![':']);
    lemma_digits_plain(a);
    lemma_digits_plain(b);
    lemma_digits_plain(c);
    let bc = b + seq![':'] + c;
    assert(s == a + seq![':'] + bc);
    lemma_pieces(a, ':', bc);
    lemma_pieces(b, ':', c);
    lemma_one_piece(c, ':');
    assert(seq![a] + (seq![b] + seq![c]) == seq![a, b, c]);
    assert(s[0] == a[0] && s.last() == c.last());
    assert(digits::is_digit(a[0]) && digits::is_digit(c[c.len() - 1]));
    lemma_trimmed_same(s);
}

/// A duration that was written as hours, minutes and seconds is read back.
pub proof fn law_duration_read_back(n: u64)
    ensures
        fmt::duration(fmt::hms_text(n as nat)) == Some(n),
{
    let h = (n as nat) / 3600;
    let m = ((n as nat) % 3600) / 60;
    let s = (n as nat) % 60;
    let a = digits::decimal(h);
    let b = digits::two_digits(m);
    let c = digits::two_digits(s);
    digits::lemma_decimal_digits(h);
    digits::law_read_back(h, u64::MAX as nat);
    lemma_two_digits(m, u64::MAX as nat);
    lemma_two_digits(s, u64::MAX as nat);
    lemma_three_fields(a, b, c);
    lemma_digits_plain(a);
    lemma_digits_plain(b);
    lemma_digits_plain(c);
    let f = seq![a, b, c];
    reveal_with_fuel(fmt::sexagesimal, 4);
    assert(f.drop_last() == seq![a, b]);
    assert(seq![a, b].drop_last() == seq![a]);
    assert(seq![a].drop_last() == Seq::<Seq<char>>::empty());
    assert(fmt::sexagesimal(f) == Some((h * 60 + m) * 60 + s as int));
    assert((h * 60 + m) * 60 + s == n);
}

/// A bare number is a duration in seconds; with one colon it is minutes and seconds, with two
/// hours, minutes and seconds; and with more it is none.
pub proof fn law_duration_fields(a: u64, b: u64, c: u64, d: u64)
    ensures
        fmt::duration(digits::decimal(a as nat)) == Some(a),
        a * 60 + b <= u64::MAX ==> fmt::duration(
            digits::decimal(a as nat) + seq![':'] + digits::decimal(b as nat),
        ) == Some((a * 60 + b) as u64),
        a * 3600 + b * 60 + c <= u64::MAX ==> fmt::duration(
            digits::decimal(a as nat) + seq![':'] + (digits::decimal(b as nat) + seq![':']
                + digits::decimal(c as nat)),
        ) == Some((a * 3600 + b * 60 + c) as u64),
        fmt::duration(
            digits::decimal(a as nat) + seq![':'] + (digits::decimal(b as nat) + seq![':'] + (
            digits::decimal(c as nat) + seq![':'] + digits::decimal(d as nat))),
        ) is None,
{
    let (x, y, z, w) = (
        digits::decimal(a as nat),
        digits::decimal(b as nat),
        digits::decimal(c as nat),
        digits::decimal(d as nat),
    );
    lemma_field(a);
    lemma_field(b);
    lemma_field(c);
    lemma_field(d);
    lemma_one_piece(x, ':');
    lemma_one_piece(y, ':');
    lemma_one_piece(z, ':');
    lemma_one_piece(w, ':');
    let yz = y + seq![':'] + z;
    let zw = z + seq![':'] + w;
    let yzw = y + seq![':'] + zw;
    lemma_pieces(x, ':', y);
    lemma_pieces(y, ':', z);
    lemma_pieces(x, ':', yz);
    lemma_pieces(z, ':', w);
    lemma_pieces(y, ':', zw);
    lemma_pieces(x, ':', yzw);
    let two = x + seq![':'] + y;
    let three = x + seq![':'] + yz;
    let four = x + seq![':'] + yzw;
    assert(two[0] == x[0] && two.last() == y.last());
    assert(yz.last() == z.last() && three[0] == x[0] && three.last() == z.last());
    assert(zw.last() == w.last() && yzw.last() == w.last());
    assert(four[0] == x[0] && four.last() == w.last());
    lemma_trimmed_same(two);
    lemma_trimmed_same(three);
    lemma_trimmed_same(four);
    reveal_with_fuel(fmt::sexagesimal, 4);
    assert(seq![x].drop_last() == Seq::<Seq<char>>::empty());
    assert(seq![x] + seq![y] == seq![x, y]);
    assert(seq![x, y].drop_last() == seq![x]);
    assert(seq![x] + (seq![y] + seq![z]) == seq![x, y, z]);
    assert(seq![x, y, z].drop_last() == seq![x, y]);
    assert((seq![x] + (seq![y] + (seq![z] + seq![w]))).len() == 4);
    assert(fmt::sexagesimal(seq![x, y]) == Some(a * 60 + b as int));
    assert(fmt::sexagesimal(seq![x, y, z]) == Some((a * 60 + b) * 60 + c as int));
}

/// A number is a field of a duration.
proof fn lemma_field(n: u64)
    ensures
        ({
            let d = digits::decimal(n as nat);
            &&& d.len() > 0
            &&& text::trimmed(d) == d
            &&& !text::is_space(d[0]) && !text::is_space(d.last())
            &&& forall|i: int| 0 <= i < d.len() ==> d[i] != ':'
            &&& digits::read_nat(d, u64::MAX as nat) == Some(n as nat)
        }),
{
    let d = digits::decimal(n as nat);
    digits::lemma_decimal_digits(n as nat);
    digits::law_read_back(n as nat, u64::MAX as nat);
    lemma_digits_plain(d);
    assert(digits::is_digit(d[0]) && digits::is_digit(d[d.len() - 1]));
}

// ---------------------------------------------------------------------------
// dates
// ---------------------------------------------------------------------------

/// The clock `h:m:s`.
pub open spec fn clock_text(h: nat, m: nat, s: nat) -> Seq<char> {
    digits::two_digits(h) + ":"@ + digits::two_digits(m) + ":"@ + digits::two_digits(s)
}

/// Digits are read as a signed number as they are as an unsigned one.
proof fn lemma_read_int(n: nat)
    requires
        n < 100,
    ensures
        digits::read_int(digits::two_digits(n)) == Some(n as int),
{
    lemma_two_digits(n, 0x7fff_ffff_ffff_ffff);
    assert(digits::is_digit(digits::two_digits(n)[0]));
}

/// A month is found by its name.
pub(crate) proof fn lemma_month_named(m: int)
    requires
        1 <= m <= 12,
    ensures
        fmt::month_named(fmt::month_name(m)) == Some(m),
{
    let s = fmt::month_name(m);
    let c = choose|k: int| 1 <= k <= 12 && #[trigger] fmt::month_name(k) == s;
    assert(1 <= c <= 12 && fmt::month_name(c) == s);
    if c != m {
        fmt::lemma_month_names(c, m);
    }
}

/// The numbers of a clock are its hours, minutes and seconds.
pub(crate) proof fn lemma_clock(h: nat, mi: nat, se: nat)
    requires
        h < 24,
        mi < 60,
        se < 60,
    ensures
        fmt::numbers(text::pieces(clock_text(h, mi, se), ':')) == seq![h as int, mi as int, se as int],
{
    lemma_two_digits(h, u64::MAX as nat);
    lemma_two_digits(mi, u64::MAX as nat);
    lemma_two_digits(se, u64::MAX as nat);
    lemma_three_fields(digits::two_digits(h), digits::two_digits(mi), digits::two_digits(se));
    lemma_read_int(h);
    lemma_read_int(mi);
    lemma_read_int(se);
    let f = seq![digits::two_digits(h), digits::two_digits(mi), digits::two_digits(se)];
    reveal_with_fuel(fmt::numbers, 4);
    assert(f.drop_last() == seq![digits::two_digits(h), digits::two_digits(mi)]);
    assert(f.drop_last().drop_last() == seq![digits::two_digits(h)]);
    assert(f.drop_last().drop_last().drop_last() == Seq::<Seq<char>>::empty());
    assert(fmt::numbers(f) == seq![h as int, mi as int, se as int]);
}

/// A time that PBS writes as weekday, month, day, clock and year is read as that time, and
/// shown with its day, month, hour and minute.
pub proof fn law_date_read_back(
    s: Seq<char>,
    weekday: Seq<char>,
    y: i64,
    mo: int,
    d: int,
    h: nat,
    mi: nat,
    se: nat,
    tz: int,
)
    requires
        calendar::is_date(y as int, mo, d),
        h < 24,
        mi < 60,
        se < 60,
        text::words(s) == seq![
            weekday,
            fmt::month_name(mo),
            digits::decimal(d as nat),
            clock_text(h, mi, se),
            digits::signed_decimal(y as int),
        ],
        ({
            let local = calendar::days_since_epoch(y as int, mo, d) * 86400 + h * 3600 + mi * 60 + se;
            i64::MIN <= local <= i64::MAX && i64::MIN <= local - tz <= i64::MAX
        }),
    ensures
        ({
            let local = calendar::days_since_epoch(y as int, mo, d) * 86400 + h * 3600 + mi * 60 + se;
            &&& fmt::pbs_date(s, tz) == Some((local - tz) as i64)
            &&& fmt::datetime_text(local - tz, tz) == digits::decimal(d as nat) + " "@ + fmt::month_name(mo) + " "@
                + digits::two_digits(h) + ":"@ + digits::two_digits(mi)
        }),
{
    let days = calendar::days_since_epoch(y as int, mo, d);
    let secs = h * 3600 + mi * 60 + se;
    let local = days * 86400 + secs;
    lemma_clock(h, mi, se);
    lemma_month_named(mo);
    digits::law_read_back_signed(d as i64);
    digits::law_read_back_signed(y);
    calendar::law_date_of(y as int, mo, d);
    assert(local / 86400 == days && local % 86400 == secs);
}

// ---------------------------------------------------------------------------
// sizes and counts
// ---------------------------------------------------------------------------

/// The digits at the start of digits and something else.
proof fn lemma_leading_digits(d: Seq<char>, rest: Seq<char>)
    requires
        digits::all_digits(d),
        rest.len() > 0 ==> !digits::is_digit(rest[0]),
    ensures
        fmt::leading_digits(d + rest) == d.len(),
    decreases d.len(),
{
    let s = d + rest;
    if d.len() > 0 {
        assert(s[0] == d[0]);
        assert(digits::is_digit(d[0]));
        assert(s.skip(1) == d.skip(1) + rest);
        assert forall|i: int| 0 <= i < d.skip(1).len() implies digits::is_digit(#[trigger] d.skip(1)[i]) by {
            assert(d.skip(1)[i] == d[i + 1]);
        }
        lemma_leading_digits(d.skip(1), rest);
    } else {
        assert(s == rest);
    }
}

/// A size of `n` KiB, as PBS writes it, is read as that.
pub proof fn law_size_read_back(n: u64)
    ensures
        fmt::size_kb(digits::decimal(n as nat) + "kb"@) == Some(n),
{
    reveal_strlit("kb");
    reveal_strlit("");
    reveal_strlit("b");
    let d = digits::decimal(n as nat);
    let s = d + "kb"@;
    digits::lemma_decimal_digits(n as nat);
    digits::law_read_back(n as nat, u64::MAX as nat);
    assert(digits::is_digit(d[0]));
    assert(s[0] == d[0] && s.last() == 'b');
    lemma_trimmed_same(s);
    assert(text::lowered(s) == s) by {
        assert forall|i: int| 0 <= i < s.len() implies text::lower_char(s[i]) == s[i] by {
            if i < d.len() {
                assert(digits::is_digit(d[i]));
            }
        }
    }
    lemma_leading_digits(d, "kb"@);
    assert(s.take(d.len() as int) == d);
    assert(s.skip(d.len() as int) == "kb"@);
    lemma_trimmed_same("kb"@);
    assert("kb"@.len() == 2 && "b"@.len() == 1 && ""@.len() == 0);
}

/// A size with a unit in lower case is read by its unit.
proof fn lemma_size_unit(n: u64, u: Seq<char>)
    requires
        lower_letters(u),
    ensures
        fmt::size_kb(digits::decimal(n as nat) + u) == match fmt::unit_kb(n as int, u) {
            Some(kb) => Some(crate::wrap::word(kb) as u64),
            None => None,
        },
{
    let d = digits::decimal(n as nat);
    let s = d + u;
    digits::lemma_decimal_digits(n as nat);
    digits::law_read_back(n as nat, u64::MAX as nat);
    assert(digits::is_digit(d[0]) && digits::is_digit(d[d.len() - 1]));
    assert(s[0] == d[0]);
    if u.len() > 0 {
        assert(s.last() == u[u.len() - 1]);
        assert('a' <= u[0] <= 'z');
        assert(!text::is_space(u[0]) && !text::is_space(u.last()));
    } else {
        assert(s.last() == d[d.len() - 1]);
    }
    lemma_trimmed_same(s);
    lemma_trimmed_same(u);
    assert(text::lowered(s) == s) by {
        assert forall|i: int| 0 <= i < s.len() implies text::lower_char(s[i]) == s[i] by {
            if i < d.len() {
                assert(digits::is_digit(d[i]));
            } else {
                assert('a' <= u[i - d.len()] <= 'z');
            }
        }
    }
    lemma_leading_digits(d, u);
    assert(s.take(d.len() as int) == d);
    assert(s.skip(d.len() as int) == u);
}

/// Is a text of lower-case letters?
spec fn lower_letters(u: Seq<char>) -> bool {
    forall|i: int| 0 <= i < u.len() ==> 'a' <= #[trigger] u[i] <= 'z'
}

/// What the units stand for.
proof fn lemma_units(n: int)
    ensures
        fmt::unit_kb(n, ""@) == Some(n / 1024),
        fmt::unit_kb(n, "b"@) == Some(n / 1024),
        fmt::unit_kb(n, "kb"@) == Some(n),
        fmt::unit_kb(n, "mb"@) == Some(n * 1024),
        fmt::unit_kb(n, "gb"@) == Some(n * 1024 * 1024),
        fmt::unit_kb(n, "tb"@) == Some(n * 1024 * 1024 * 1024),
        fmt::unit_kb(n, "pb"@) is None,
        fmt::unit_kb(n, "x"@) is None,
        lower_letters(""@),
        lower_letters("b"@),
        lower_letters("kb"@),
        lower_letters("mb"@),
        lower_letters("gb"@),
        lower_letters("tb"@),
        lower_letters("pb"@),
        lower_letters("x"@),
        ""@.len() == 0,
{
    reveal_strlit("");
    reveal_strlit("b");
    reveal_strlit("kb");
    reveal_strlit("k");
    reveal_strlit("mb");
    reveal_strlit("m");
    reveal_strlit("gb");
    reveal_strlit("g");
    reveal_strlit("tb");
    reveal_strlit("t");
    reveal_strlit("pb");
    reveal_strlit("x");
    assert("b"@.len() == 1 && "k"@.len() == 1 && "m"@.len() == 1 && "g"@.len() == 1 && "t"@.len()
        == 1 && "x"@.len() == 1 && ""@.len() == 0);
    assert("kb"@.len() == 2 && "mb"@.len() == 2 && "gb"@.len() == 2 && "tb"@.len() == 2
        && "pb"@.len() == 2);
    assert("b"@[0] == 'b' && "k"@[0] == 'k' && "m"@[0] == 'm' && "g"@[0] == 'g' && "t"@[0] == 't'
        && "x"@[0] == 'x' && "kb"@[0] == 'k' && "mb"@[0] == 'm' && "gb"@[0] == 'g' && "tb"@[0]
        == 't' && "pb"@[0] == 'p');
}

/// A size is a number of bytes, or of KiB, MiB, GiB or TiB, by its unit; in KiB each is 1024
/// times the one before it. A size in another unit is none.
pub proof fn law_size_units(n: u64)
    ensures
        ({
            let d = digits::decimal(n as nat);
            &&& fmt::size_kb(d) == Some((n / 1024) as u64)
            &&& fmt::size_kb(d + "b"@) == Some((n / 1024) as u64)
            &&& fmt::size_kb(d + "kb"@) == Some(n)
            &&& n * 1024 <= u64::MAX ==> fmt::size_kb(d + "mb"@) == Some((n * 1024) as u64)
            &&& n * 1048576 <= u64::MAX ==> fmt::size_kb(d + "gb"@) == Some((n * 1048576) as u64)
            &&& n * 1073741824 <= u64::MAX ==> fmt::size_kb(d + "tb"@) == Some(
                (n * 1073741824) as u64,
            )
            &&& fmt::size_kb(d + "pb"@) is None
            &&& fmt::size_kb(d + "x"@) is None
        }),
{
    let d = digits::decimal(n as nat);
    lemma_units(n as int);
    assert(d + ""@ == d);
    lemma_size_unit(n, ""@);
    lemma_size_unit(n, "b"@);
    lemma_size_unit(n, "kb"@);
    lemma_size_unit(n, "mb"@);
    lemma_size_unit(n, "gb"@);
    lemma_size_unit(n, "tb"@);
    lemma_size_unit(n, "pb"@);
    lemma_size_unit(n, "x"@);
}

/// A number of tenths, with its unit.
pub open spec fn tenths(t: nat, unit: Seq<char>) -> Seq<char> {
    digits::decimal(t / 10) + "."@ + digits::decimal(t % 10) + " "@ + unit
}

/// A whole number, with its unit.
pub open spec fn wholes(q: nat, unit: Seq<char>) -> Seq<char> {
    digits::decimal(q) + " "@ + unit
}

/// A size is shown in the largest unit that it has one of: to the tenth below 100 of them, and
/// else in whole; to the nearest in either.
pub proof fn law_size_shown(kb: u64, r: String)
    requires
        call_ensures(fmt::size, (kb,), r),
        kb < 0x20_0000_0000_0000,
    ensures
        kb < 1024 ==> r@ == wholes(kb as nat, "KiB"@),
        1024 <= kb < 102400 ==> exists|t: nat|
            r@ == #[trigger] tenths(t, "MiB"@) && -512 <= t * 1024 - 10 * kb <= 512,
        102400 <= kb < 1048576 ==> exists|q: nat|
            r@ == #[trigger] wholes(q, "MiB"@) && -512 <= q * 1024 - kb <= 512,
        1048576 <= kb < 104857600 ==> exists|t: nat|
            r@ == #[trigger] tenths(t, "GiB"@) && -524288 <= t * 1048576 - 10 * kb <= 524288,
        104857600 <= kb < 1073741824 ==> exists|q: nat|
            r@ == #[trigger] wholes(q, "GiB"@) && -524288 <= q * 1048576 - kb <= 524288,
        1073741824 <= kb < 107374182400 ==> exists|t: nat|
            r@ == #[trigger] tenths(t, "TiB"@) && -536870912 <= t * 1073741824 - 10 * kb
                <= 536870912,
        107374182400 <= kb ==> exists|q: nat|
            r@ == #[trigger] wholes(q, "TiB"@) && -536870912 <= q * 1073741824 - kb <= 536870912,
{
    assert(fmt::spacing(kb as int) == 1);
    assert(fmt::nearest(kb as int, 1) == kb);
    let v = fmt::binary64(kb as int);
    assert(v == kb);
    if kb < 1024 {
        assert(fmt::nearest(v, 1) == kb);
    } else if kb < 102400 {
        let t = fmt::nearest(10 * v, 1024);
        assert(r@ == tenths(t as nat, "MiB"@));
    } else if kb < 1048576 {
        let q = fmt::nearest(v, 1024);
        assert(r@ == wholes(q as nat, "MiB"@));
    } else if kb < 104857600 {
        let t = fmt::nearest(10 * v, 1048576);
        assert(r@ == tenths(t as nat, "GiB"@));
    } else if kb < 1073741824 {
        let q = fmt::nearest(v, 1048576);
        assert(r@ == wholes(q as nat, "GiB"@));
    } else if kb < 107374182400 {
        let t = fmt::nearest(10 * v, 1073741824);
        assert(r@ == tenths(t as nat, "TiB"@));
    } else {
        let q = fmt::nearest(v, 1073741824);
        assert(r@ == wholes(q as nat, "TiB"@));
    }
}

/// Text without `c` loses nothing when `c` is taken out.
proof fn lemma_without_none(s: Seq<char>, c: char)
    requires
        forall|i: int| 0 <= i < s.len() ==> s[i] != c,
    ensures
        text::without(s, c) == s,
    decreases s.len(),
{
    if s.len() > 0 {
        lemma_without_none(s.drop_last(), c);
        assert(s.last() == s[s.len() - 1]);
        assert(s.drop_last().push(s.last()) == s);
    }
}

/// What is taken out of a row of texts is taken out of each.
proof fn lemma_without_append(a: Seq<char>, b: Seq<char>, c: char)
    ensures
        text::without(a + b, c) == text::without(a, c) + text::without(b, c),
    decreases b.len(),
{
    if b.len() == 0 {
        assert(a + b == a);
        assert(text::without(a, c) + text::without(b, c) == text::without(a, c));
    } else {
        assert((a + b).drop_last() == a + b.drop_last());
        assert((a + b).last() == b.last());
        lemma_without_append(a, b.drop_last(), c);
        assert(text::without(a + b, c) == text::without(a, c) + text::without(b, c));
    }
}

/// Grouping digits and taking out the commas gives the digits back.
proof fn lemma_ungroup(s: Seq<char>)
    requires
        digits::all_digits(s),
    ensures
        text::without(fmt::grouped(s), ',') == s,
    decreases s.len(),
{
    reveal_strlit(",");
    if s.len() <= 3 {
        assert forall|i: int| 0 <= i < s.len() implies s[i] != ',' by {
            assert(digits::is_digit(s[i]));
        }
        lemma_without_none(s, ',');
    } else {
        let a = s.take(s.len() - 3);
        let b = s.skip(s.len() - 3);
        assert forall|i: int| 0 <= i < a.len() implies digits::is_digit(#[trigger] a[i]) by {
            assert(a[i] == s[i]);
        }
        assert forall|i: int| 0 <= i < b.len() implies b[i] != ',' by {
            assert(b[i] == s[i + s.len() - 3]);
            assert(digits::is_digit(s[i + s.len() - 3]));
        }
        lemma_ungroup(a);
        lemma_without_none(b, ',');
        lemma_without_append(fmt::grouped(a) + ","@, b, ',');
        lemma_without_append(fmt::grouped(a), ","@, ',');
        assert(","@ == seq![',']);
        assert(seq![','].drop_last() == Seq::<char>::empty());
        assert(text::without(Seq::<char>::empty(), ',') == Seq::<char>::empty());
        assert(text::without(","@, ',') == Seq::<char>::empty());
        assert(a + Seq::<char>::empty() + b == s);
    }
}

/// A count of points with thousands separators is read back once the commas are out.
pub proof fn law_commas_undone(n: u64)
    ensures
        text::without(fmt::grouped(digits::decimal(n as nat)), ',') == digits::decimal(n as nat),
        digits::read_nat(text::without(fmt::grouped(digits::decimal(n as nat)), ','), u64::MAX as nat) == Some(n as nat),
{
    digits::lemma_decimal_digits(n as nat);
    lemma_ungroup(digits::decimal(n as nat));
    digits::law_read_back(n as nat, u64::MAX as nat);
}

// ---------------------------------------------------------------------------
// cells
// ---------------------------------------------------------------------------

/// A cell is as wide as its column.
pub proof fn law_cell_width(s: Seq<char>, width: nat)
    ensures
        fmt::padded(fmt::ellipsized(s, width), width).len() == width,
{
}

/// A cell that is aligned to the right is at least as wide as its column, and ends with its
/// text.
pub proof fn law_right_aligned(s: Seq<char>, width: nat)
    ensures
        fmt::right_aligned(s, width).len() == (if s.len() > width {
            s.len()
        } else {
            width
        }),
        fmt::right_aligned(s, width).skip(fmt::right_aligned(s, width).len() - s.len()) == s,
{
    let r = fmt::right_aligned(s, width);
    assert(r.skip(r.len() - s.len()) == s);
}

/// A bar is as wide as it is meant to be.
pub proof fn law_bar_width(fill: Fill, width: nat, ascii: bool)
    ensures
        fmt::bar_text(fill, width, ascii).len() == width,
{
}

/// A path shortened from the front fits, and keeps its end.
pub proof fn law_front_ellipsis(s: Seq<char>, max: nat)
    ensures
        logtext::ellipsized_front(s, max as int).len() <= max,
        0 < max < s.len() ==> logtext::ellipsized_front(s, max as int).skip(1) == s.skip(
            s.len() - (max - 1),
        ),
{
    if 0 < max < s.len() {
        assert(logtext::ellipsized_front(s, max as int).skip(1) == s.skip(s.len() - (max - 1)));
    }
}

/// Nothing that a terminal would have overwritten is shown: no carriage return is left.
pub proof fn law_no_carriage_return(b: Seq<u8>)
    ensures
        !logtext::behind_cr(b).contains(0x0d),
    decreases b.len(),
{
    if b.len() > 0 && b.last() != 0x0d {
        law_no_carriage_return(b.drop_last());
        let r = logtext::behind_cr(b.drop_last());
        if logtext::behind_cr(b).contains(0x0d) {
            let k = choose|k: int| 0 <= k < logtext::behind_cr(b).len() && logtext::behind_cr(b)[k] == 0x0d;
            if k < r.len() {
                assert(r[k] == 0x0d);
            }
        }
    }
}

} // verus!

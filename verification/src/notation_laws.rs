//! Laws of the notations of a listing: times, sizes, points, cells and colours.

use crate::pbs::Job;
use crate::reals::{Figure, Fill, Real};
use crate::view::Viewport;
use crate::digits;
use crate::fmt;
use crate::logtext;
use crate::text;
use crate::view;
use vstd::prelude::*;

verus! {

// ---------------------------------------------------------------------------
// times
// ---------------------------------------------------------------------------

/// A duration with its seconds is the one without them, a colon and two digits.
pub proof fn law_hm_is_part_of_hms(secs: u64, short: String, long: String)
    requires
        call_ensures(fmt::hm, (secs,), short),
        call_ensures(fmt::hms, (secs,), long),
    ensures
        long@ == short@ + ":"@ + digits::two_digits((secs % 60) as nat),
        short@ == digits::decimal((secs / 3600) as nat) + ":"@ + digits::two_digits(
            ((secs / 60) % 60) as nat,
        ),
{
    assert((secs % 3600) / 60 == (secs / 60) % 60) by (nonlinear_arith);
}

/// A distance in time is told in days and hours, or in hours and minutes, or in minutes: as many
/// as are in it.
pub proof fn law_until(secs: i64, r: String)
    requires
        call_ensures(fmt::until, (secs,), r),
    ensures
        secs >= 86400 ==> exists|d: nat, h: nat|
            r@ == #[trigger] two_units(d, "d "@, h, "h"@) && h < 24 && d * 86400 + h * 3600 <= secs
                < d * 86400 + h * 3600 + 3600,
        3600 <= secs < 86400 ==> exists|h: nat, m: nat|
            r@ == #[trigger] two_units(h, "h "@, m, "m"@) && m < 60 && h * 3600 + m * 60 <= secs < h
                * 3600 + m * 60 + 60,
        0 <= secs < 3600 ==> r@ == digits::decimal((secs / 60) as nat) + "m"@,
        secs < 0 ==> r@ == digits::decimal(0) + "m"@,
{
    let s = secs as int;
    if secs >= 86400 {
        let d = (s / 86400) as nat;
        let h = ((s % 86400) / 3600) as nat;
        assert(r@ == two_units(d, "d "@, h, "h"@));
    } else if secs >= 3600 {
        let h = ((s % 86400) / 3600) as nat;
        let m = ((s % 3600) / 60) as nat;
        assert(r@ == two_units(h, "h "@, m, "m"@));
    }
}

/// Two numbers with their units.
pub open spec fn two_units(a: nat, u: Seq<char>, b: nat, w: Seq<char>) -> Seq<char> {
    digits::decimal(a) + u + digits::decimal(b) + w
}

/// A time that has passed is told in seconds up to a minute, in minutes up to an hour, in hours
/// up to a day, and then as a distance; the future is no time ago.
pub proof fn law_ago(elapsed: Option<u64>, r: String)
    requires
        call_ensures(logtext::ago, (elapsed,), r),
    ensures
        elapsed is None ==> r@ == "0s"@,
        elapsed matches Some(d) ==> (d < 60 ==> r@ == digits::decimal(d as nat) + "s"@) && (60 <= d
            < 3600 ==> r@ == digits::decimal((d / 60) as nat) + "m"@) && (3600 <= d < 86400 ==> r@
            == digits::decimal((d / 3600) as nat) + "h"@),
        elapsed matches Some(d) && 86400 <= d <= i64::MAX ==> exists|n: nat, h: nat|
            r@ == #[trigger] two_units(n, "d "@, h, "h"@) && h < 24 && n * 86400 + h * 3600
                <= elapsed->0 < n * 86400 + h * 3600 + 3600,
{
    if let Some(d) = elapsed {
        if 86400 <= d <= i64::MAX {
            let n = (d as int / 86400) as nat;
            let h = ((d as int % 86400) / 3600) as nat;
            assert(r@ == two_units(n, "d "@, h, "h"@));
        }
    }
}

/// A job has waited since it was submitted, unless it has started; one that was submitted in the
/// future has not waited.
pub proof fn law_waited(j: &Job, now: i64, r: Option<u64>)
    requires
        call_ensures(Job::wait_secs, (j, now), r),
    ensures
        r is Some <==> j.qtime is Some && j.stime is None,
        r matches Some(w) ==> {
            let q = j.qtime->0;
            &&& now >= q && now - q <= i64::MAX ==> w == now - q
            &&& now < q && q - now <= i64::MAX ==> w == 0
        },
{
}

/// What a job has used of its limit and what is left make up the limit, until it is used up; and
/// its share is known where both are and the limit is above 0.
pub proof fn law_walltime(j: &Job, left: Option<u64>, frac: Option<(u64, u64)>)
    requires
        call_ensures(Job::walltime_left, (j,), left),
        call_ensures(Job::walltime_frac, (j,), frac),
    ensures
        left is Some <==> j.walltime_used is Some && j.walltime_req is Some,
        left matches Some(l) ==> (j.walltime_used->0 <= j.walltime_req->0 ==> l + j.walltime_used->0
            == j.walltime_req->0) && (j.walltime_used->0 > j.walltime_req->0 ==> l == 0),
        frac is Some <==> j.walltime_used is Some && (j.walltime_req matches Some(q) && q > 0),
        frac matches Some(f) ==> f.0 == j.walltime_used->0 && f.1 == j.walltime_req->0,
{
}

/// The resource type of a job, with the number of its nodes where there are several.
pub proof fn law_resource_label(j: &Job, r: String)
    requires
        call_ensures(Job::resource_label, (j,), r),
    ensures
        j.rtype is None ==> r@ == "-"@,
        j.rtype matches Some(t) ==> (j.nodect <= 1 ==> r@ == t@) && (j.nodect > 1 ==> r@ == t@ + "×"@
            + digits::decimal(j.nodect as nat)),
{
}

/// Two times are on the same local day exactly where the same number of whole days lies before
/// them there.
pub proof fn law_same_day(a: i64, b: i64, tz: i64, r: bool)
    requires
        call_ensures(fmt::same_day, (a, b, tz), r),
        i64::MIN <= a + tz <= i64::MAX,
        i64::MIN <= b + tz <= i64::MAX,
    ensures
        r <==> (a + tz) / 86400 == (b + tz) / 86400,
{
}

/// The time of day is the hours and minutes since the start of the local day.
pub proof fn law_clock(epoch: i64, tz: i64, r: String)
    requires
        call_ensures(fmt::clock, (epoch, tz), r),
        i64::MIN <= epoch + tz <= i64::MAX,
    ensures
        r@ == digits::two_digits((((epoch + tz) % 86400) / 3600) as nat) + ":"@ + digits::two_digits(
            ((((epoch + tz) % 86400) / 60) % 60) as nat,
        ),
{
    let s = (epoch + tz) % 86400;
    assert((s % 3600) / 60 == (s / 60) % 60) by (nonlinear_arith)
        requires
            s >= 0,
    ;
}

// ---------------------------------------------------------------------------
// points
// ---------------------------------------------------------------------------

/// Points are told with one decimal between 0 and 10, and else in whole with separators.
pub proof fn law_points_text(v: &Figure, r: String, whole: String)
    requires
        call_ensures(fmt::points, (v,), r),
        call_ensures(fmt::commas, (v,), whole),
    ensures
        v.value.above(Real { bits: 0 }) && (Real { bits: 0x4024_0000_0000_0000 }).above(v.value) && (
        v.tenth@.len() < 2 || v.tenth@.last() != '0' || v.tenth@[v.tenth@.len() - 2] != '.') ==> r@
            == v.tenth@,
        !v.value.above(Real { bits: 0 }) || !(Real { bits: 0x4024_0000_0000_0000 }).above(v.value)
            ==> r@ == whole@,
        (Real { bits: 0 }).above(v.value) ==> whole@.len() > 0 && whole@[0] == '-',
        !(Real { bits: 0 }).above(v.value) ==> text::without(whole@, ',') == digits::decimal(
            v.rounded as nat,
        ),
{
    if v.tenth@.len() >= 2 {
        let t = v.tenth@;
        let e = t.skip(t.len() - 2);
        assert(e.len() == 2 && e[0] == t[t.len() - 2] && e[1] == t.last());
        if e == seq!['.', '0'] {
            assert(seq!['.', '0'][0] == '.' && seq!['.', '0'][1] == '0');
        }
    }
    reveal_strlit("-");
    if !(Real { bits: 0 }).above(v.value) {
        crate::laws::law_commas_undone(v.rounded);
    }
}

/// A number without a decimal that it needs is told in whole.
pub proof fn law_trim_num(v: &Figure, r: String)
    requires
        call_ensures(view::trim_num, (v,), r),
    ensures
        v.near_whole ==> r@ == v.whole@,
        !v.near_whole ==> r@ == v.tenth@,
{
}

// ---------------------------------------------------------------------------
// cells
// ---------------------------------------------------------------------------

/// A text that fits is not cut; one that does not is cut to the width, its last cell an ellipsis.
pub proof fn law_ellipsize(s: &str, max: usize, r: String)
    requires
        call_ensures(fmt::ellipsize, (s, max), r),
    ensures
        s@.len() <= max ==> r@ == s@,
        s@.len() > max ==> r@.len() == max,
        s@.len() > max > 0 ==> r@.last() == '…' && r@.drop_last() == s@.take(max - 1),
{
    if s@.len() > max && max > 0 {
        assert(r@.drop_last() == s@.take(max - 1));
    }
}

/// A text is filled up with spaces behind it, or before it, and never cut.
pub proof fn law_pad(s: &str, width: usize, r: String, q: String)
    requires
        call_ensures(fmt::pad, (s, width), r),
        call_ensures(fmt::rpad, (s, width), q),
    ensures
        r@.len() == (if s@.len() > width { s@.len() as int } else { width as int }),
        r@.take(s@.len() as int) == s@,
        forall|i: int| s@.len() <= i < r@.len() ==> r@[i] == ' ',
        q@.len() == r@.len(),
        q@.skip(q@.len() - s@.len()) == s@,
        forall|i: int| 0 <= i < q@.len() - s@.len() ==> q@[i] == ' ',
{
    assert(r@.take(s@.len() as int) == s@);
    assert(q@.skip(q@.len() - s@.len()) == s@);
}

/// A bar shows its filled cells first, then one for the eighths that remain, then empty ones; in
/// ASCII filled cells, then empty ones.
pub proof fn law_bar(fill: &Fill, width: usize, ascii: bool, r: String)
    requires
        call_ensures(fmt::bar, (fill, width, ascii), r),
    ensures
        r@.len() == width,
        forall|i: int|
            0 <= i < width && ascii ==> #[trigger] r@[i] == (if i < fill.cells { '#' } else { '-' }),
        forall|i: int|
            0 <= i < width && !ascii && 8 * (i + 1) <= fill.eighths ==> #[trigger] r@[i] == '█',
        forall|i: int|
            0 <= i < width && !ascii && 8 * i >= fill.eighths ==> #[trigger] r@[i] == '░',
        forall|i: int|
            0 <= i < width && !ascii && 8 * i < fill.eighths < 8 * (i + 1) ==> #[trigger] r@[i] == (
            if fill.eighths - 8 * i == 1 {
                '▏'
            } else if fill.eighths - 8 * i == 2 {
                '▎'
            } else if fill.eighths - 8 * i == 3 {
                '▍'
            } else if fill.eighths - 8 * i == 4 {
                '▌'
            } else if fill.eighths - 8 * i == 5 {
                '▋'
            } else if fill.eighths - 8 * i == 6 {
                '▊'
            } else {
                '▉'
            }),
{
}

// ---------------------------------------------------------------------------
// colours
// ---------------------------------------------------------------------------

/// The bar of a job that has used nine tenths of its walltime is red, from seven tenths yellow,
/// and below green.
pub proof fn law_bar_colour(v: &Viewport, share: &Real, r: &'static str)
    requires
        call_ensures(Viewport::bar_color, (v, share), r),
    ensures
        share.reaches(Real { bits: 0x3fec_cccc_cccc_cccd }) ==> r@ == "31"@,
        !share.reaches(Real { bits: 0x3fec_cccc_cccc_cccd }) && share.reaches(
            Real { bits: 0x3fe6_6666_6666_6666 },
        ) ==> r@ == "33"@,
        !share.reaches(Real { bits: 0x3fec_cccc_cccc_cccd }) && !share.reaches(
            Real { bits: 0x3fe6_6666_6666_6666 },
        ) ==> r@ == "32"@,
{
}

/// Numbers that are not negative compare as their bits do; a number that is none compares with
/// nothing.
pub proof fn law_numbers(a: &Real, b: &Real, gt: bool, ge: bool)
    requires
        call_ensures(Real::gt, (a, b), gt),
        call_ensures(Real::ge, (a, b), ge),
        a.bits <= 0x7ff0_0000_0000_0000,
        b.bits <= 0x7ff0_0000_0000_0000,
    ensures
        gt <==> a.bits > b.bits,
        ge <==> a.bits >= b.bits,
{
}

// ---------------------------------------------------------------------------
// reading numbers
// ---------------------------------------------------------------------------

/// The decimal notation of a number is read, also behind a plus sign; one that is too large is
/// not.
pub proof fn law_read_unsigned(s: &str, r: Option<u64>, n: nat)
    requires
        call_ensures(digits::read_u64, (s,), r),
        s@ == digits::decimal(n) || s@ == seq!['+'] + digits::decimal(n),
    ensures
        n <= u64::MAX ==> r == Some(n as u64),
        n > u64::MAX ==> r is None,
{
    digits::lemma_decimal_digits(n);
    digits::law_read_back(n, n);
    let d = digits::decimal(n);
    assert(digits::is_digit(d[0]));
    assert((seq!['+'] + d).skip(1) == d);
    assert(digits::unsigned_part(s@, '+') == d);
    assert(digits::unsigned_part(d, '+') == d);
}

/// What holds anything but digits, or no digit, is no number.
pub proof fn law_no_number(s: &str, r: Option<u64>)
    requires
        call_ensures(digits::read_u64, (s,), r),
        s@.len() == 0 || s@ == seq!['+'] || (s@[0] != '+' && !digits::is_digit(s@[0])) || exists|i: int|
            0 < i < s@.len() && !digits::is_digit(#[trigger] s@[i]),
    ensures
        r is None,
{
    let d = digits::unsigned_part(s@, '+');
    if s@.len() > 0 && s@ != seq!['+'] {
        if s@[0] != '+' && !digits::is_digit(s@[0]) {
            assert(d[0] == s@[0]);
        } else {
            let i = choose|i: int| 0 < i < s@.len() && !digits::is_digit(#[trigger] s@[i]);
            if s@[0] == '+' {
                assert(d[i - 1] == s@[i]);
            } else {
                assert(d[i] == s@[i]);
            }
        }
    }
}

/// A signed number is read behind a minus sign, a plus sign or none.
pub proof fn law_read_signed(s: &str, r: Option<i64>, n: nat)
    requires
        call_ensures(digits::read_i64, (s,), r),
        n <= i64::MAX,
    ensures
        s@ == digits::decimal(n) ==> r == Some(n as i64),
        s@ == seq!['+'] + digits::decimal(n) ==> r == Some(n as i64),
        s@ == seq!['-'] + digits::decimal(n) ==> r == Some((-(n as int)) as i64),
        s@.len() == 0 ==> r is None,
{
    digits::lemma_decimal_digits(n);
    digits::law_read_back(n, n);
    let d = digits::decimal(n);
    assert(digits::is_digit(d[0]));
    assert((seq!['+'] + d).skip(1) == d);
    assert((seq!['-'] + d).skip(1) == d);
    assert((seq!['+'] + d)[0] == '+');
    assert((seq!['-'] + d)[0] == '-');
    assert(digits::unsigned_part(d, '+') == d);
}

} // verus!

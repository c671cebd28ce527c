//! The Gregorian calendar: days since the Unix epoch.

use vstd::prelude::*;

verus! {

/// Is `y` a leap year?
pub open spec fn is_leap(y: int) -> bool {
    y % 4 == 0 && (y % 100 != 0 || y % 400 == 0)
}

/// The number of days of month `m` of year `y`.
pub open spec fn month_len(y: int, m: int) -> int {
    if m == 2 {
        if is_leap(y) {
            29
        } else {
            28
        }
    } else if m == 4 || m == 6 || m == 9 || m == 11 {
        30
    } else {
        31
    }
}

/// The number of days of year `y` before its month `m`.
pub open spec fn days_before_month(y: int, m: int) -> int
    decreases m,
{
    if m <= 1 {
        0
    } else {
        days_before_month(y, m - 1) + month_len(y, m - 1)
    }
}

/// The number of days between the first of January of year 1 and that of year `y`.
pub open spec fn days_before_year(y: int) -> int {
    365 * (y - 1) + (y - 1) / 4 - (y - 1) / 100 + (y - 1) / 400
}

/// The number of days between the Unix epoch and day `d` of month `m` of year `y`.
pub open spec fn days_since_epoch(y: int, m: int, d: int) -> int {
    days_before_year(y) + days_before_month(y, m) + d - 1 - days_before_year(1970)
}

/// Is there a day `d` in month `m` of year `y`?
pub open spec fn is_date(y: int, m: int, d: int) -> bool {
    1 <= m <= 12 && 1 <= d <= month_len(y, m)
}

/// The date (year, month, day) of the day `n` days after the Unix epoch.
pub open spec fn date_of(n: int) -> (int, int, int) {
    choose|t: (int, int, int)| #[trigger] is_date(t.0, t.1, t.2) && days_since_epoch(t.0, t.1, t.2) == n
}

/// The days before each month, as a table.
proof fn lemma_month_table(y: int)
    ensures
        ({
            let l: int = if is_leap(y) {
                1
            } else {
                0
            };
            &&& days_before_month(y, 1) == 0
            &&& days_before_month(y, 2) == 31
            &&& days_before_month(y, 3) == 59 + l
            &&& days_before_month(y, 4) == 90 + l
            &&& days_before_month(y, 5) == 120 + l
            &&& days_before_month(y, 6) == 151 + l
            &&& days_before_month(y, 7) == 181 + l
            &&& days_before_month(y, 8) == 212 + l
            &&& days_before_month(y, 9) == 243 + l
            &&& days_before_month(y, 10) == 273 + l
            &&& days_before_month(y, 11) == 304 + l
            &&& days_before_month(y, 12) == 334 + l
            &&& days_before_month(y, 13) == 365 + l
        }),
{
    reveal_with_fuel(days_before_month, 13);
}

/// A year is followed by the next one.
proof fn lemma_year_step(y: int)
    ensures
        days_before_year(y + 1) == days_before_year(y) + 365 + (if is_leap(y) {
            1int
        } else {
            0int
        }),
{
}

/// Years that start in March: with `e = y / 400` and `r = y % 400`, the days before the
/// first of March of year `y`.
proof fn lemma_march_year(y: int)
    ensures
        ({
            let e = y / 400;
            let r = y % 400;
            days_before_year(y + 1) == e * 146097 + r * 365 + r / 4 - r / 100
        }),
{
    let e = y / 400;
    let r = y % 400;
    assert(y == 400 * e + r);
    assert(y / 4 == 100 * e + r / 4);
    assert(y / 100 == 4 * e + r / 100);
}

/// Days since the Unix epoch for a civil date.
pub fn days_from_civil(y: i64, m: i64, d: i64) -> (r: i128)
    requires
        1 <= m <= 12,
    ensures
        r == days_since_epoch(y as int, m as int, d as int),
        -0x1_0000_0000_0000_0000_0000 <= r <= 0x1_0000_0000_0000_0000_0000,
{
    // The year starts in March, so that the leap day is its last day.
    let march: i128 = if m <= 2 {
        y as i128 - 1
    } else {
        y as i128
    };
    // A multiple of the length of the cycle makes the operand positive.
    let shifted: u128 = (march + 400 * 0x1_0000_0000_0000_0000) as u128;
    let era: i128 = (shifted / 400) as i128 - 0x1_0000_0000_0000_0000;
    let yoe: i128 = (shifted % 400) as i128;
    let mp: i128 = if m > 2 {
        m as i128 - 3
    } else {
        m as i128 + 9
    };
    let doy: i128 = (153 * mp + 2) / 5 + d as i128 - 1;
    let doe: i128 = yoe * 365 + yoe / 4 - yoe / 100 + doy;
    proof {
        assert(era == march as int / 400 && yoe == march as int % 400);
        lemma_march_year(march as int);
        lemma_month_table(y as int);
        lemma_year_step(y as int);
    }
    era * 146097 + doe - 719468
}

/// Later years start later.
proof fn lemma_years_grow(a: int, b: int)
    requires
        a <= b,
    ensures
        days_before_year(a) <= days_before_year(b),
{
    assert((a - 1) / 4 <= (b - 1) / 4);
    assert((a - 1) / 400 <= (b - 1) / 400);
    assert((b - 1) / 100 - (a - 1) / 100 <= b - a);
}

/// A date lies within its year.
proof fn lemma_date_in_year(y: int, m: int, d: int)
    requires
        is_date(y, m, d),
    ensures
        days_before_year(y) <= days_since_epoch(y, m, d) + days_before_year(1970)
            < days_before_year(y + 1),
{
    lemma_month_table(y);
    lemma_year_step(y);
}

/// Different dates are different days.
pub proof fn law_date_unique(y1: int, m1: int, d1: int, y2: int, m2: int, d2: int)
    requires
        is_date(y1, m1, d1),
        is_date(y2, m2, d2),
        days_since_epoch(y1, m1, d1) == days_since_epoch(y2, m2, d2),
    ensures
        y1 == y2 && m1 == m2 && d1 == d2,
{
    lemma_date_in_year(y1, m1, d1);
    lemma_date_in_year(y2, m2, d2);
    if y1 < y2 {
        lemma_years_grow(y1 + 1, y2);
    }
    if y2 < y1 {
        lemma_years_grow(y2 + 1, y1);
    }
    lemma_month_table(y1);
}

/// The date of a day is the one date with its number of days.
pub proof fn law_date_of(y: int, m: int, d: int)
    requires
        is_date(y, m, d),
    ensures
        date_of(days_since_epoch(y, m, d)) == (y, m, d),
{
    let n = days_since_epoch(y, m, d);
    let t = (y, m, d);
    assert(is_date(t.0, t.1, t.2) && days_since_epoch(t.0, t.1, t.2) == n);
    let c = date_of(n);
    law_date_unique(c.0, c.1, c.2, y, m, d);
}

/// The month and day `doy` days after the first of March, in a month count that starts
/// with March.
proof fn lemma_month_split(y: int, doy: int)
    requires
        0 <= doy <= 365,
        doy == 365 ==> is_leap(y + 1),
    ensures
        ({
            let mp = (5 * doy + 2) / 153;
            let d = doy - (153 * mp + 2) / 5 + 1;
            let m = if mp < 10 {
                mp + 3
            } else {
                mp - 9
            };
            let yy = if m <= 2 {
                y + 1
            } else {
                y
            };
            &&& 0 <= mp <= 11
            &&& is_date(yy, m, d)
        }),
{
    let mp = (5 * doy + 2) / 153;
    assert(0 <= mp <= 11);
    assert(mp == 0 || mp == 1 || mp == 2 || mp == 3 || mp == 4 || mp == 5 || mp == 6 || mp == 7
        || mp == 8 || mp == 9 || mp == 10 || mp == 11);
}

/// The year of the 400-year cycle that day `doe` of the cycle lies in, and the day of
/// that year. Years start in March.
fn year_of_cycle(doe: i64) -> (r: (i64, i64))
    requires
        0 <= doe < 146097,
    ensures
        0 <= r.0 < 400,
        0 <= r.1 <= 365,
        doe == r.0 * 365 + r.0 as int / 4 - r.0 as int / 100 + r.1,
        r.1 == 365 ==> is_leap(r.0 + 1),
{
    let century: i64 = if doe / 36524 > 3 {
        3
    } else {
        doe / 36524
    };
    let in_century: i64 = doe - century * 36524;
    assert(0 <= in_century <= 36524);
    assert(in_century == 36524 ==> century == 3);
    let quad: i64 = in_century / 1461;
    let in_quad: i64 = in_century - quad * 1461;
    assert(0 <= in_quad <= 1460 && 0 <= quad <= 24);
    let year: i64 = if in_quad / 365 > 3 {
        3
    } else {
        in_quad / 365
    };
    let yoe: i64 = century * 100 + quad * 4 + year;
    let doy: i64 = in_quad - year * 365;
    assert(yoe as int / 4 == century * 25 + quad);
    assert(yoe as int / 100 == century as int);
    (yoe, doy)
}

/// The date that lies `doy` days after the first of March of year `march`.
fn date_in_march_year(march: i64, doy: i64) -> (r: (i64, i64, i64))
    requires
        -0x1_0000_0000_0000 <= march <= 0x1_0000_0000_0000,
        0 <= doy <= 365,
        doy == 365 ==> is_leap(march + 1),
    ensures
        is_date(r.0 as int, r.1 as int, r.2 as int),
        days_since_epoch(r.0 as int, r.1 as int, r.2 as int) == days_before_year(march + 1) + doy
            - 719468,
{
    let mp: i64 = (5 * doy + 2) / 153;
    let d: i64 = doy - (153 * mp + 2) / 5 + 1;
    let m: i64 = if mp < 10 {
        mp + 3
    } else {
        mp - 9
    };
    let y: i64 = if m <= 2 {
        march + 1
    } else {
        march
    };
    proof {
        lemma_month_split(march as int, doy as int);
        lemma_month_table(y as int);
        lemma_year_step(y as int);
    }
    (y, m, d)
}

/// The date (year, month, day) of the day `n` days after the Unix epoch.
pub fn civil_from_days(n: i64) -> (r: (i64, i64, i64))
    requires
        -0x1_0000_0000_0000 <= n <= 0x1_0000_0000_0000,
    ensures
        (r.0 as int, r.1 as int, r.2 as int) == date_of(n as int),
        is_date(r.0 as int, r.1 as int, r.2 as int),
        days_since_epoch(r.0 as int, r.1 as int, r.2 as int) == n,
{
    let z: i64 = n + 719468;
    // A multiple of the length of the cycle makes the operand positive.
    let shifted: u64 = (z + 146097 * 0x1_0000_0000) as u64;
    let era: i64 = (shifted / 146097) as i64 - 0x1_0000_0000;
    let doe: i64 = (shifted % 146097) as i64;
    assert(z == era * 146097 + doe);
    let (yoe, doy) = year_of_cycle(doe);
    let march: i64 = era * 400 + yoe;
    proof {
        assert(march as int / 400 == era as int && march as int % 400 == yoe as int);
        assert(is_leap(yoe + 1) == is_leap(march + 1)) by {
            assert((march + 1) == 400 * era + (yoe + 1));
        }
        lemma_march_year(march as int);
    }
    let r = date_in_march_year(march, doy);
    proof {
        law_date_of(r.0 as int, r.1 as int, r.2 as int);
    }
    r
}

} // verus!

//! Laws of dates and durations: the calendar, and what is no date or no duration.

use crate::pbs::Job;
use crate::calendar;
use crate::digits;
use crate::fmt;
use crate::laws;
use crate::logtext;
use crate::order;
use crate::select;
use crate::text;
use crate::text_laws;
use vstd::prelude::*;

verus! {

// ---------------------------------------------------------------------------
// the calendar
// ---------------------------------------------------------------------------

/// The days are counted from the first of January 1970; the day after is one more; the first of a
/// month is the day after the last of the month before, and the first of January that after the
/// thirty-first of December.
pub proof fn law_calendar(y: int, m: int, d: int)
    requires
        1 <= m <= 12,
    ensures
        calendar::days_since_epoch(1970, 1, 1) == 0,
        calendar::days_since_epoch(y, m, d + 1) == calendar::days_since_epoch(y, m, d) + 1,
        m < 12 ==> calendar::days_since_epoch(y, m + 1, 1) == calendar::days_since_epoch(
            y,
            m,
            calendar::month_len(y, m),
        ) + 1,
        calendar::days_since_epoch(y + 1, 1, 1) == calendar::days_since_epoch(y, 12, 31) + 1,
{
    reveal_with_fuel(calendar::days_before_month, 13);
}

/// The lengths of the months; February has a day more in years that four divides, unless a hundred
/// does and four hundred does not.
pub proof fn law_month_lengths(y: int)
    ensures
        calendar::month_len(y, 1) == 31,
        calendar::month_len(y, 3) == 31,
        calendar::month_len(y, 4) == 30,
        calendar::month_len(y, 5) == 31,
        calendar::month_len(y, 6) == 30,
        calendar::month_len(y, 7) == 31,
        calendar::month_len(y, 8) == 31,
        calendar::month_len(y, 9) == 30,
        calendar::month_len(y, 10) == 31,
        calendar::month_len(y, 11) == 30,
        calendar::month_len(y, 12) == 31,
        y % 400 == 0 ==> calendar::month_len(y, 2) == 29,
        y % 100 == 0 && y % 400 != 0 ==> calendar::month_len(y, 2) == 28,
        y % 4 == 0 && y % 100 != 0 ==> calendar::month_len(y, 2) == 29,
        y % 4 != 0 ==> calendar::month_len(y, 2) == 28,
{
}

/// A day has one date, and the days of a date are its own.
pub proof fn law_civil(y: i64, m: i64, d: i64, days: i128, back: (i64, i64, i64))
    requires
        calendar::is_date(y as int, m as int, d as int),
        call_ensures(calendar::days_from_civil, (y, m, d), days),
        i64::MIN <= days <= i64::MAX,
        call_ensures(calendar::civil_from_days, (days as i64,), back),
    ensures
        days == calendar::days_since_epoch(y as int, m as int, d as int),
        back.1 == m && back.2 == d,
{
    calendar::law_date_of(y as int, m as int, d as int);
}

// ---------------------------------------------------------------------------
// dates
// ---------------------------------------------------------------------------

/// A timestamp of fewer than five words, of a month that is none, or of a day or a year that is no
/// number, says no time.
pub proof fn law_no_date(s: &str, tz: i64, r: Option<i64>)
    requires
        call_ensures(fmt::parse_pbs_date, (s, tz), r),
    ensures
        ({
            let f = text::words(s@);
            &&& f.len() < 5 ==> r is None
            &&& f.len() >= 5 && (forall|m: int| 1 <= m <= 12 ==> #[trigger] fmt::month_name(m) != f[1])
                ==> r is None
            &&& f.len() >= 5 && digits::read_int(f[2]) is None ==> r is None
            &&& f.len() >= 5 && digits::read_int(f[4]) is None ==> r is None
            &&& f.len() >= 5 && text_laws::free_of(f[3], ':') ==> r is None
        }),
{
    let f = text::words(s@);
    if f.len() >= 5 && text_laws::free_of(f[3], ':') {
        text::lemma_first_at(f[3], ':');
        let p = text::pieces(f[3], ':');
        assert(p == seq![f[3]]);
        assert(p.drop_last() == Seq::<Seq<char>>::empty());
        reveal_with_fuel(fmt::numbers, 2);
    }
}

/// A timestamp is read as the time that its words say, and as the same time whatever follows them.
pub proof fn law_date(s: &str, tz: i64, r: Option<i64>, y: i64, mo: int, d: int, h: nat, mi: nat, se: nat)
    requires
        call_ensures(fmt::parse_pbs_date, (s, tz), r),
        calendar::is_date(y as int, mo, d),
        h < 24,
        mi < 60,
        se < 60,
        text::words(s@).len() >= 5,
        text::words(s@)[1] == fmt::month_name(mo),
        text::words(s@)[2] == digits::decimal(d as nat),
        text::words(s@)[3] == laws::clock_text(h, mi, se),
        text::words(s@)[4] == digits::signed_decimal(y as int),
        ({
            let local = calendar::days_since_epoch(y as int, mo, d) * 86400 + h * 3600 + mi * 60 + se;
            i64::MIN <= local <= i64::MAX && i64::MIN <= local - tz <= i64::MAX
        }),
    ensures
        r == Some(
            (calendar::days_since_epoch(y as int, mo, d) * 86400 + h * 3600 + mi * 60 + se - tz) as i64,
        ),
{
    laws::lemma_clock(h, mi, se);
    laws::lemma_month_named(mo);
    digits::law_read_back_signed(d as i64);
    digits::law_read_back_signed(y);
}

/// A time is shown with its day, its month, its hour and its minute in the time zone.
pub proof fn law_short_datetime(epoch: i64, tz: i64, r: String, y: int, m: int, d: int, h: nat, mi: nat, se: nat)
    requires
        call_ensures(fmt::short_datetime, (epoch, tz), r),
        calendar::is_date(y, m, d),
        h < 24,
        mi < 60,
        se < 60,
        epoch + tz == calendar::days_since_epoch(y, m, d) * 86400 + h * 3600 + mi * 60 + se,
        i64::MIN <= epoch + tz <= i64::MAX,
    ensures
        r@ == digits::decimal(d as nat) + " "@ + fmt::month_name(m) + " "@ + digits::two_digits(h) + ":"@
            + digits::two_digits(mi),
{
    let days = calendar::days_since_epoch(y, m, d);
    let secs = h * 3600 + mi * 60 + se;
    let local = epoch + tz;
    calendar::law_date_of(y, m, d);
    assert(local / 86400 == days && local % 86400 == secs);
}

/// The names of the months.
pub proof fn law_month_names()
    ensures
        fmt::month_name(1) == "Jan"@,
        fmt::month_name(2) == "Feb"@,
        fmt::month_name(3) == "Mar"@,
        fmt::month_name(4) == "Apr"@,
        fmt::month_name(5) == "May"@,
        fmt::month_name(6) == "Jun"@,
        fmt::month_name(7) == "Jul"@,
        fmt::month_name(8) == "Aug"@,
        fmt::month_name(9) == "Sep"@,
        fmt::month_name(10) == "Oct"@,
        fmt::month_name(11) == "Nov"@,
        fmt::month_name(12) == "Dec"@,
{
}

// ---------------------------------------------------------------------------
// durations
// ---------------------------------------------------------------------------

/// Where a field of a duration is no number, or there are more than three, it says none.
pub proof fn law_parse_hms(s: &str, r: Option<u64>, i: int)
    requires
        call_ensures(fmt::parse_hms, (s,), r),
    ensures
        ({
            let f = text::pieces(text::trimmed(s@), ':');
            &&& f.len() > 3 ==> r is None
            &&& 0 <= i < f.len() && digits::read_nat(text::trimmed(f[i]), u64::MAX as nat) is None
                ==> r is None
        }),
{
    let f = text::pieces(text::trimmed(s@), ':');
    if 0 <= i < f.len() && digits::read_nat(text::trimmed(f[i]), u64::MAX as nat) is None {
        fmt::lemma_bad_field(f, i);
    }
}

// ---------------------------------------------------------------------------
// choosing and shortening
// ---------------------------------------------------------------------------

/// The jobs chosen are those of the owner, or all where no owner is asked for, each once and in
/// the order in which they came.
pub proof fn law_choose_jobs(jobs: &Vec<Job>, owner: Option<&String>, r: Vec<usize>)
    requires
        call_ensures(select::choose_jobs, (jobs, owner), r),
    ensures
        forall|p: int, q: int| 0 <= p < q < r@.len() ==> #[trigger] r@[p] < #[trigger] r@[q],
        forall|p: int|
            0 <= p < r@.len() ==> (#[trigger] r@[p]) < jobs@.len() && (owner matches Some(u)
                ==> jobs@[r@[p] as int].owner@ == u@),
        forall|i: int|
            0 <= i < jobs@.len() && (owner matches Some(u) ==> (#[trigger] jobs@[i]).owner@ == u@)
                ==> chosen_among(r@, i),
{
    let wanted = select::asked_for(jobs@, select::opt_name(owner));
    select::law_indices(jobs@.len(), wanted);
    let t = select::indices(jobs@.len(), wanted);
    let n = order::ints(r@);
    assert(n == t);
    assert forall|p: int| 0 <= p < r@.len() implies #[trigger] r@[p] == t[p] by {
        assert(n[p] == r@[p]);
    }
    assert forall|i: int|
        0 <= i < jobs@.len() && (owner matches Some(u) ==> (#[trigger] jobs@[i]).owner@ == u@) implies chosen_among(
        r@,
        i,
    ) by {
        assert(wanted(i));
        let p = choose|p: int| 0 <= p < t.len() && t[p] == i;
        assert(r@[p] == i);
    }
}

/// Is the index `i` among those chosen?
pub open spec fn chosen_among(r: Seq<usize>, i: int) -> bool {
    exists|p: int| 0 <= p < r.len() && #[trigger] r[p] == i
}

/// A path that is too long keeps its end, behind an ellipsis.
pub proof fn law_ellipsize_front(s: &str, max: usize, r: String)
    requires
        call_ensures(logtext::ellipsize_front, (s, max), r),
    ensures
        s@.len() <= max ==> r@ == s@,
        s@.len() > max && max > 0 ==> r@ == seq!['…'] + s@.skip(s@.len() - max + 1),
        s@.len() > max && max == 0 ==> r@.len() == 0,
{
}

} // verus!

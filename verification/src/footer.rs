//! What stands under the jobs of a listing: sums, warnings and balances.

use crate::order::{Key, KeyView};
use crate::pbs::{Job, State};
use crate::reals::{Figure, Fill, Real, Share};
use crate::view::{Entry, Viewport};
use crate::card;
use crate::fmt;
use crate::groups;
use crate::order;
use crate::paint;
use crate::reals;
use crate::select;
use crate::table;
use crate::text;
use crate::view;
use vstd::prelude::*;

verus! {

/// Sums over the jobs of a listing.
pub struct Totals {
    /// The points per hour of the running jobs.
    pub burn: Figure,
    /// The points spent so far.
    pub spent: Figure,
    /// The points reserved by the jobs that have not finished.
    pub reserved: Figure,
}

/// The points of a group, with what the jobs of a listing have reserved of them.
pub struct Balance {
    pub group: String,
    /// The share of the points that is used.
    pub share: Share,
    /// How far the bar is filled.
    pub bar: Fill,
    pub left: Figure,
    pub granted: Figure,
    /// The points reserved by the jobs of the group that have not finished.
    pub committed: Figure,
}

// ---------------------------------------------------------------------------
// sums
// ---------------------------------------------------------------------------

/// A sum over the jobs of a listing.
pub enum Sum<'a> {
    /// The points per hour of the running jobs.
    Burn,
    /// The points spent.
    Spent,
    /// The points reserved by the jobs that have not finished.
    Reserved,
    /// Those of them that are charged to a group.
    Committed(&'a str),
}

/// Does a job add to the sum?
pub open spec fn adds(j: Job, sum: Sum, v: Viewport) -> bool {
    match sum {
        Sum::Burn => j.state == State::Running && j.rate_spec(v.rates@) is Some,
        Sum::Spent => j.rate_spec(v.rates@) is Some && j.walltime_used is Some,
        Sum::Reserved => j.state != State::Finished && table::is_priced(j, v),
        Sum::Committed(g) => j.group@ == g@ && j.state != State::Finished && table::is_priced(j, v),
    }
}

/// Which jobs add to the sum.
pub open spec fn addends(entries: Seq<Entry>, sum: Sum, v: Viewport) -> spec_fn(int) -> bool {
    |i: int| adds(*entries[i].job, sum, v)
}

/// The indices of the jobs that add to the sum.
pub open spec fn adding(entries: Seq<Entry>, sum: Sum, v: Viewport) -> Seq<int> {
    select::indices(entries.len(), addends(entries, sum, v))
}

/// Does a job add to the sum?
fn does_add(j: &Job, sum: &Sum, view: &Viewport) -> (r: bool)
    ensures
        r == adds(*j, *sum, *view),
{
    match sum {
        Sum::Burn => j.state == State::Running && j.point_rate(view.rates).is_some(),
        Sum::Spent => j.points_spent(view.rates).is_some(),
        Sum::Reserved => j.state != State::Finished && j.points_reserved(view.rates).is_some(),
        Sum::Committed(g) => text::same(j.group.as_str(), g) && j.state != State::Finished
            && j.points_reserved(view.rates).is_some(),
    }
}

/// The indices of the jobs that add to the sum.
pub fn summands(entries: &Vec<Entry>, sum: &Sum, view: &Viewport) -> (r: Vec<usize>)
    ensures
        order::ints(r@) == adding(entries@, *sum, *view),
{
    let ghost wanted = addends(entries@, *sum, *view);
    let mut out: Vec<usize> = Vec::new();
    let mut i: usize = 0;
    assert(order::ints(out@) == select::indices(0, wanted));
    while i < entries.len()
        invariant
            i <= entries@.len(),
            wanted == addends(entries@, *sum, *view),
            order::ints(out@) == select::indices(i as nat, wanted),
        decreases entries@.len() - i,
    {
        let ghost done = order::ints(out@);
        if does_add(entries[i].job, sum, view) {
            out.push(i);
            assert(order::ints(out@) == done.push(i as int));
        }
        i += 1;
    }
    out
}

// ---------------------------------------------------------------------------
// the footer
// ---------------------------------------------------------------------------

/// The line of the sums, where one of them is above 0.
pub open spec fn totals_line(t: Totals, v: Viewport) -> Seq<char> {
    let zero = Real { bits: reals::BITS_ZERO };
    if t.reserved.value.above(zero) || t.spent.value.above(zero) {
        "\n "@ + paint::dimmed(
            v.color,
            fmt::points_text(t.spent) + " pt spent so far · "@ + fmt::points_text(t.reserved)
                + " pt reserved by these jobs"@,
        ) + "\n"@
    } else {
        Seq::empty()
    }
}

/// The line of the sums.
fn show_totals(t: &Totals, view: &Viewport) -> (r: String)
    ensures
        r@ == totals_line(*t, *view),
{
    let zero = Real { bits: reals::BITS_ZERO };
    if t.reserved.value.gt(&zero) || t.spent.value.gt(&zero) {
        let mut line = fmt::points(&t.spent);
        line.append(" pt spent so far · ");
        line.append(fmt::points(&t.reserved).as_str());
        line.append(" pt reserved by these jobs");
        let mut out = "\n ".to_owned();
        out.append(view.dim(line.as_str()).as_str());
        out.append("\n");
        out
    } else {
        String::new()
    }
}

/// Is a job about to be killed by its own walltime limit?
pub open spec fn is_tight(e: Entry) -> bool {
    e.job.state == State::Running && e.job.frac_spec() is Some && e.share.value.reaches(
        Real { bits: reals::BITS_NINE_TENTHS },
    )
}

/// Which jobs are about to be killed.
pub open spec fn tight(entries: Seq<Entry>) -> spec_fn(int) -> bool {
    |i: int| is_tight(entries[i])
}

/// By how close a job is to its limit.
pub open spec fn tight_key(e: Entry) -> KeyView {
    KeyView { rank: 0, weight: e.share.value.place(), name: ""@ }
}

/// The indices of the jobs that are about to be killed, the closest to its limit first.
pub open spec fn tightest(entries: Seq<Entry>) -> Seq<int> {
    let found = select::indices(entries.len(), tight(entries));
    select::reordered(found, found.map_values(|i: int| tight_key(entries[i])))
}

/// Every job that is about to be killed is warned of once, and no other, the closest to its
/// limit first.
pub proof fn law_tightest(entries: Seq<Entry>)
    ensures
        select::lists(
            entries.len(),
            tight(entries),
            |i: int| tight_key(entries[i]),
            tightest(entries),
        ),
{
    select::law_reordered(entries.len(), tight(entries), |i: int| tight_key(entries[i]));
}

/// The warning of a job that is about to be killed.
pub open spec fn tight_line(e: Entry, v: Viewport) -> Seq<char> {
    " "@ + paint::painted(v.color, "31"@, view::warn_text(v.ascii)) + " "@ + paint::painted(
        v.color,
        "1"@,
        e.job.short_id@,
    ) + " "@ + fmt::ellipsized(e.job.name@, 28) + " at "@ + e.share.percent@ + "% of walltime — "@
        + fmt::hms_text(
        match (e.job.walltime_used, e.job.walltime_req) {
            (Some(u), Some(q)) => card::room_beside(q as int, u as int),
            _ => 0,
        },
    ) + " left\n"@
}

/// The warnings of the first jobs of `list`.
pub open spec fn tight_lines(entries: Seq<Entry>, list: Seq<int>, v: Viewport) -> Seq<char>
    decreases list.len(),
{
    if list.len() == 0 {
        Seq::empty()
    } else {
        tight_lines(entries, list.drop_last(), v) + tight_line(entries[list.last()], v)
    }
}

/// The indices of the jobs that are about to be killed, the closest to its limit first.
fn tight_jobs(entries: &Vec<Entry>) -> (r: Vec<usize>)
    ensures
        order::ints(r@) == tightest(entries@),
        forall|p: int| 0 <= p < r@.len() ==> #[trigger] r@[p] < entries@.len(),
{
    let ghost wanted = tight(entries@);
    let mut found: Vec<usize> = Vec::new();
    let mut keys: Vec<Key> = Vec::new();
    let mut i: usize = 0;
    assert(order::ints(found@) == select::indices(0, wanted));
    while i < entries.len()
        invariant
            i <= entries@.len(),
            wanted == tight(entries@),
            order::ints(found@) == select::indices(i as nat, wanted),
            keys@.len() == found@.len(),
            forall|p: int|
                0 <= p < keys@.len() ==> (#[trigger] keys@[p])@ == tight_key(
                    entries@[found@[p] as int],
                ),
        decreases entries@.len() - i,
    {
        let ghost done = order::ints(found@);
        let e = &entries[i];
        if e.job.state == State::Running && e.job.walltime_frac().is_some() && e.share.value.ge(
            &Real { bits: reals::BITS_NINE_TENTHS },
        ) {
            found.push(i);
            keys.push(Key { rank: 0, weight: e.share.value.placed().0, name: "".to_owned() });
            assert(order::ints(found@) == done.push(i as int));
        }
        i += 1;
    }
    let ghost t = select::indices(entries@.len(), wanted);
    proof {
        assert forall|p: int| 0 <= p < found@.len() implies found@[p] == t[p] by {
            assert(order::ints(found@)[p] == found@[p]);
        }
        assert(order::key_views(keys@) == t.map_values(|i: int| tight_key(entries@[i])));
        law_tightest(entries@);
    }
    let list = select::reorder(&found, &keys);
    proof {
        assert forall|p: int| 0 <= p < list@.len() implies #[trigger] list@[p] < entries@.len() by {
            assert(order::ints(list@)[p] == list@[p]);
            assert(tightest(entries@)[p] == list@[p]);
        }
    }
    list
}

/// The warnings of the jobs that are about to be killed.
fn show_tight(entries: &Vec<Entry>, view: &Viewport) -> (r: String)
    ensures
        r@ == tight_lines(entries@, tightest(entries@), *view),
{
    let list = tight_jobs(entries);
    let ghost all = order::ints(list@);
    let mut out = String::new();
    let mut i: usize = 0;
    assert(out@ == tight_lines(entries@, all.take(0), *view));
    while i < list.len()
        invariant
            i <= list@.len(),
            all == order::ints(list@),
            forall|p: int| 0 <= p < list@.len() ==> #[trigger] list@[p] < entries@.len(),
            out@ == tight_lines(entries@, all.take(i as int), *view),
        decreases list@.len() - i,
    {
        assert(all.take(i + 1).drop_last() == all.take(i as int));
        assert(all.take(i + 1).last() == list@[i as int]);
        out.append(show_tight_line(&entries[list[i]], view).as_str());
        i += 1;
    }
    assert(all.take(i as int) == all);
    out
}

/// The warning of a job that is about to be killed.
fn show_tight_line(e: &Entry, view: &Viewport) -> (r: String)
    ensures
        r@ == tight_line(*e, *view),
{
    let mut line = " ".to_owned();
    line.append(view.c("31", view.warn_sign()).as_str());
    line.append(" ");
    line.append(view.c("1", e.job.short_id.as_str()).as_str());
    line.append(" ");
    line.append(fmt::ellipsize(e.job.name.as_str(), 28).as_str());
    line.append(" at ");
    line.append(e.share.percent.as_str());
    line.append("% of walltime — ");
    let left: u64 = match e.job.walltime_left() {
        Some(l) => l,
        None => 0,
    };
    line.append(fmt::hms(left).as_str());
    line.append(" left\n");
    line
}

/// The first balance of a group.
pub open spec fn balance_of(balances: Seq<Balance>, g: Seq<char>) -> Option<Balance>
    decreases balances.len(),
{
    if balances.len() == 0 {
        None
    } else if balances[0].group@ == g {
        Some(balances[0])
    } else {
        balance_of(balances.skip(1), g)
    }
}

/// The line of a balance, the group in its colour. It warns where more is reserved than is left.
pub open spec fn balance_line(b: Balance, groups: Seq<Seq<char>>, v: Viewport) -> Seq<char> {
    let l0 = " "@ + paint::painted(
        v.color,
        groups::group_code(groups, b.group@),
        fmt::padded(b.group@, table::W_BALANCE as nat),
    ) + " "@ + view::bar_cell_text(
        v,
        b.share.value,
        b.bar,
        table::W_BALANCE as nat,
    ) + " "@ + paint::painted(v.color, view::bar_code(b.share.value), fmt::right_aligned(b.share.percent@ + "%"@, 4))
        + " "@ + fmt::commas_text(b.left) + " left of "@ + fmt::commas_text(b.granted);
    let l1 = if b.committed.value.above(b.left.value) {
        l0 + paint::painted(
            v.color,
            "31"@,
            "  "@ + view::warn_text(v.ascii) + " "@ + fmt::commas_text(b.committed)
                + " pt reserved exceeds the balance"@,
        )
    } else {
        l0
    };
    l1 + "\n"@
}

/// The lines of the balances that are known of the groups named. `groups` are all groups
/// that the jobs are charged to.
pub open spec fn balance_lines(
    names: Seq<Seq<char>>,
    groups: Seq<Seq<char>>,
    balances: Seq<Balance>,
    v: Viewport,
) -> Seq<char>
    decreases names.len(),
{
    if names.len() == 0 {
        Seq::empty()
    } else {
        let before = balance_lines(names.drop_last(), groups, balances, v);
        match balance_of(balances, names.last()) {
            Some(b) => before + balance_line(b, groups, v),
            None => before,
        }
    }
}

/// The first balance of a group.
fn find_balance<'a>(balances: &'a Vec<Balance>, g: &str) -> (r: Option<&'a Balance>)
    ensures
        match r {
            Some(b) => balance_of(balances@, g@) == Some(*b),
            None => balance_of(balances@, g@) is None,
        },
{
    let mut i: usize = 0;
    assert(balances@.skip(0) == balances@);
    while i < balances.len()
        invariant
            i <= balances@.len(),
            balance_of(balances@.skip(i as int), g@) == balance_of(balances@, g@),
        decreases balances@.len() - i,
    {
        assert(balances@.skip(i as int).skip(1) == balances@.skip(i + 1));
        if text::same(balances[i].group.as_str(), g) {
            return Some(&balances[i]);
        }
        i += 1;
    }
    None
}

/// The line of a balance.
fn show_balance(b: &Balance, groups: &Vec<String>, view: &Viewport) -> (r: String)
    ensures
        r@ == balance_line(*b, text::texts(groups@), *view),
{
    let mut line = " ".to_owned();
    line.append(
        view.c(
            groups::group_color(groups, b.group.as_str()),
            fmt::pad(b.group.as_str(), table::W_BALANCE).as_str(),
        ).as_str(),
    );
    line.append(" ");
    line.append(view.bar_cell(Some((&b.share.value, &b.bar)), table::W_BALANCE).as_str());
    line.append(" ");
    let mut pct = b.share.percent.clone();
    pct.append("%");
    line.append(view.c(view.bar_color(&b.share.value), fmt::rpad(pct.as_str(), 4).as_str()).as_str());
    line.append(" ");
    line.append(fmt::commas(&b.left).as_str());
    line.append(" left of ");
    line.append(fmt::commas(&b.granted).as_str());
    if b.committed.value.gt(&b.left.value) {
        let mut over = "  ".to_owned();
        over.append(view.warn_sign());
        over.append(" ");
        over.append(fmt::commas(&b.committed).as_str());
        over.append(" pt reserved exceeds the balance");
        line.append(view.c("31", over.as_str()).as_str());
    }
    line.append("\n");
    line
}

/// The lines of the balances that are known of the groups.
fn show_balances(groups: &Vec<String>, balances: &Vec<Balance>, view: &Viewport) -> (r: String)
    ensures
        r@ == balance_lines(text::texts(groups@), text::texts(groups@), balances@, *view),
{
    let ghost all = text::texts(groups@);
    let mut out = String::new();
    let mut i: usize = 0;
    assert(out@ == balance_lines(all.take(0), all, balances@, *view));
    while i < groups.len()
        invariant
            i <= groups@.len(),
            all == text::texts(groups@),
            out@ == balance_lines(all.take(i as int), all, balances@, *view),
        decreases groups@.len() - i,
    {
        assert(all.take(i + 1).drop_last() == all.take(i as int));
        assert(all.take(i + 1).last() == groups@[i as int]@);
        match find_balance(balances, groups[i].as_str()) {
            Some(b) => {
                out.append(show_balance(b, groups, view).as_str());
            },
            None => {},
        }
        i += 1;
    }
    assert(all.take(i as int) == all);
    out
}

/// What stands under the jobs: the sums, the warnings and the balances.
pub open spec fn footer_text(
    entries: Seq<Entry>,
    v: Viewport,
    totals: Totals,
    balances: Seq<Balance>,
) -> Seq<char> {
    let l0 = totals_line(totals, v) + tight_lines(entries, tightest(entries), v);
    if v.show_points {
        l0 + balance_lines(groups::charged(entries), groups::charged(entries), balances, v)
    } else {
        l0
    }
}

/// What stands under the jobs: the sums, the warnings and the balances.
pub fn footer(
    entries: &Vec<Entry>,
    view: &Viewport,
    totals: &Totals,
    balances: &Vec<Balance>,
) -> (r: String)
    ensures
        r@ == footer_text(entries@, *view, *totals, balances@),
{
    let mut out = show_totals(totals, view);
    // Jobs about to be killed by their own walltime limit.
    out.append(show_tight(entries, view).as_str());
    if view.show_points {
        let groups = groups::charged_groups(entries);
        out.append(show_balances(&groups, balances, view).as_str());
    }
    out
}

} // verus!

//! Terminal rendering: a responsive table with walltime bars, or one card per
//! job in long mode.

use crate::footer::{Balance, Totals};
use crate::pbs::{Snapshot, State};
use crate::reals::{Figure, Real};
use crate::table::Cols;
use crate::view::{Entry, Viewport};
use crate::card;
use crate::digits;
use crate::fmt;
use crate::footer;
use crate::groups;
use crate::paint;
use crate::pbs;
use crate::plain;
use crate::reals;
use crate::table;
use crate::text;
use crate::view;
use crate::wrap;
use vstd::prelude::*;

verus! {

// ---------------------------------------------------------------------------
// the header
// ---------------------------------------------------------------------------

/// The state of rank `k`.
pub open spec fn state_ranked(k: int) -> State {
    if k == 0 {
        State::Running
    } else if k == 1 {
        State::Exiting
    } else if k == 2 {
        State::Queued
    } else if k == 3 {
        State::Waiting
    } else if k == 4 {
        State::Held
    } else if k == 5 {
        State::Suspended
    } else if k == 6 {
        State::Finished
    } else {
        State::Other
    }
}

/// The number of jobs in a state.
pub open spec fn jobs_in(entries: Seq<Entry>, s: State) -> nat
    decreases entries.len(),
{
    if entries.len() == 0 {
        0
    } else {
        jobs_in(entries.drop_last(), s) + (if entries.last().job.state == s {
            1nat
        } else {
            0nat
        })
    }
}

/// The number of jobs in the states of a rank below `k`.
pub open spec fn jobs_below(entries: Seq<Entry>, k: nat) -> nat
    decreases k,
{
    if k == 0 {
        0
    } else {
        jobs_below(entries, (k - 1) as nat) + jobs_in(entries, state_ranked(k - 1))
    }
}

/// The header counts every job once.
pub proof fn law_all_counted(entries: Seq<Entry>)
    ensures
        jobs_below(entries, 8) == entries.len(),
    decreases entries.len(),
{
    reveal_with_fuel(jobs_below, 9);
    if entries.len() > 0 {
        let rest = entries.drop_last();
        law_all_counted(rest);
        assert(forall|s: State| #[trigger]
            jobs_in(entries, s) == jobs_in(rest, s) + (if entries.last().job.state == s {
                1nat
            } else {
                0nat
            }));
    }
}

/// The number of GPUs of the running jobs.
pub open spec fn running_gpus(entries: Seq<Entry>) -> int
    decreases entries.len(),
{
    if entries.len() == 0 {
        0
    } else {
        running_gpus(entries.drop_last()) + (if entries.last().job.state == State::Running {
            entries.last().job.ngpus as int
        } else {
            0
        })
    }
}

/// How many jobs there are in each state of a rank below `k`, for the states that occur.
pub open spec fn state_parts(entries: Seq<Entry>, color: bool, k: nat) -> Seq<Seq<char>>
    decreases k,
{
    if k == 0 {
        Seq::empty()
    } else {
        let before = state_parts(entries, color, (k - 1) as nat);
        let s = state_ranked(k - 1);
        if jobs_in(entries, s) > 0 {
            before.push(
                paint::painted(
                    color,
                    pbs::state_color(s),
                    digits::decimal(jobs_in(entries, s)) + " "@ + pbs::state_label(s),
                ),
            )
        } else {
            before
        }
    }
}

/// The parts of the header.
pub open spec fn header_parts(
    server: Seq<char>,
    entries: Seq<Entry>,
    v: Viewport,
    who: Seq<char>,
    burn: Figure,
) -> Seq<Seq<char>> {
    let p0 = seq![paint::painted(v.color, "1"@, "ABCI-Q "@ + server), paint::painted(v.color, "36"@, who)];
    let p1 = p0 + state_parts(entries, v.color, 8);
    let gpus = wrap::word(running_gpus(entries)) as nat;
    let p2 = if gpus > 0 {
        p1.push(digits::decimal(gpus) + " GPU"@)
    } else {
        p1
    };
    let p3 = if burn.value.above(Real { bits: reals::BITS_ZERO }) {
        p2.push(view::trimmed_figure(burn) + " pt/h"@)
    } else {
        p2
    };
    let p4 = match groups::shared(entries) {
        Some(g) => p3.push(
            paint::painted(
                v.color,
                groups::group_code(groups::charged(entries), g),
                "charged "@ + g,
            ),
        ),
        None => p3,
    };
    p4.push(paint::dimmed(v.color, fmt::datetime_text(v.now as int, v.tz as int)))
}

/// The line above a listing.
pub open spec fn header_text(
    server: Seq<char>,
    entries: Seq<Entry>,
    v: Viewport,
    who: Seq<char>,
    burn: Figure,
) -> Seq<char> {
    " "@ + text::joined(header_parts(server, entries, v, who, burn), view::sep_text(v)) + "\n"@
}

/// Where all jobs are charged to one group, the header says so and the table has no column for
/// it; where some job is charged to a group and not all to one, and the table is wide enough,
/// it has the column; where no job is charged to a group, it has none.
pub proof fn law_group_shown(
    server: Seq<char>,
    entries: Seq<Entry>,
    v: Viewport,
    who: Seq<char>,
    burn: Figure,
)
    ensures
        ({
            let parts = header_parts(server, entries, v, who, burn);
            let cols = table::cols_for(v.width as int, has_group_column(entries));
            match groups::shared(entries) {
                Some(g) => {
                    &&& parts[parts.len() - 2] == paint::painted(
                        v.color,
                        groups::group_code(groups::charged(entries), g),
                        "charged "@ + g,
                    )
                    &&& !cols.group
                },
                None => {
                    &&& (exists|i: int|
                        0 <= i < entries.len() && (#[trigger] entries[i]).job.group@.len() > 0)
                        && v.width >= table::fixed_width(table::without_first(0, true))
                        + table::MIN_NAME ==> cols.group
                    &&& (forall|i: int|
                        0 <= i < entries.len() ==> (#[trigger] entries[i]).job.group@.len() == 0)
                        ==> !cols.group
                },
            }
        }),
{
    groups::law_charged(entries);
    let all = groups::charged(entries);
    if all.len() > 0 {
        assert(all.contains(all[0]));
    }
}

/// Every state has its rank.
pub proof fn law_state_ranks(s: State)
    ensures
        state_ranked(pbs::state_rank(s) as int) == s,
        pbs::state_rank(s) < 8,
{
}

/// The state of rank `k`.
fn ranked(k: usize) -> (r: State)
    ensures
        r == state_ranked(k as int),
{
    if k == 0 {
        State::Running
    } else if k == 1 {
        State::Exiting
    } else if k == 2 {
        State::Queued
    } else if k == 3 {
        State::Waiting
    } else if k == 4 {
        State::Held
    } else if k == 5 {
        State::Suspended
    } else if k == 6 {
        State::Finished
    } else {
        State::Other
    }
}

/// The number of jobs in a state.
fn count_state(entries: &Vec<Entry>, s: State) -> (r: usize)
    ensures
        r == jobs_in(entries@, s),
{
    let mut n: usize = 0;
    let mut i: usize = 0;
    while i < entries.len()
        invariant
            i <= entries@.len(),
            n <= i,
            n == jobs_in(entries@.take(i as int), s),
        decreases entries@.len() - i,
    {
        assert(entries@.take(i + 1).drop_last() == entries@.take(i as int));
        if entries[i].job.state == s {
            n += 1;
        }
        i += 1;
    }
    assert(entries@.take(i as int) == entries@);
    n
}

/// The number of GPUs of the running jobs.
fn sum_gpus(entries: &Vec<Entry>) -> (r: u64)
    ensures
        r == wrap::word(running_gpus(entries@)),
{
    let mut n: u64 = 0;
    let mut i: usize = 0;
    while i < entries.len()
        invariant
            i <= entries@.len(),
            n == wrap::word(running_gpus(entries@.take(i as int))),
        decreases entries@.len() - i,
    {
        assert(entries@.take(i + 1).drop_last() == entries@.take(i as int));
        if entries[i].job.state == State::Running {
            proof {
                wrap::lemma_word_sum(
                    running_gpus(entries@.take(i as int)),
                    entries@[i as int].job.ngpus as int,
                );
            }
            n = n.wrapping_add(entries[i].job.ngpus);
        }
        i += 1;
    }
    assert(entries@.take(i as int) == entries@);
    n
}

/// The line above a listing.
pub fn header(
    snap: &Snapshot,
    entries: &Vec<Entry>,
    view: &Viewport,
    who: &str,
    burn: &Figure,
) -> (r: String)
    ensures
        r@ == header_text(snap.server@, entries@, *view, who@, *burn),
{
    let mut parts: Vec<String> = Vec::new();
    let mut title = "ABCI-Q ".to_owned();
    title.append(snap.server.as_str());
    view::push_part(&mut parts, view.c("1", title.as_str()));
    view::push_part(&mut parts, view.c("36", who));
    let ghost p0 = text::texts(parts@);
    assert(p0 == seq![
        paint::painted(view.color, "1"@, "ABCI-Q "@ + snap.server@),
        paint::painted(view.color, "36"@, who@),
    ]);
    let mut k: usize = 0;
    assert(p0 + state_parts(entries@, view.color, 0) == p0);
    while k < 8
        invariant
            k <= 8,
            text::texts(parts@) == p0 + state_parts(entries@, view.color, k as nat),
        decreases 8 - k,
    {
        let s = ranked(k);
        let n: usize = count_state(entries, s);
        let ghost before = state_parts(entries@, view.color, k as nat);
        if n > 0 {
            let mut t = digits::show(n as u64);
            t.append(" ");
            t.append(s.label());
            let part = view.c(s.color(), t.as_str());
            assert((p0 + before).push(part@) == p0 + before.push(part@));
            view::push_part(&mut parts, part);
        }
        k += 1;
    }
    let gpus: u64 = sum_gpus(entries);
    if gpus > 0 {
        let mut t = digits::show(gpus);
        t.append(" GPU");
        view::push_part(&mut parts, t);
    }
    if burn.value.gt(&Real { bits: reals::BITS_ZERO }) {
        let mut t = view::trim_num(burn);
        t.append(" pt/h");
        view::push_part(&mut parts, t);
    }
    match groups::shared_group(entries) {
        Some(g) => {
            let all = groups::charged_groups(entries);
            let mut t = "charged ".to_owned();
            t.append(g.as_str());
            view::push_part(
                &mut parts,
                view.c(groups::group_color(&all, g.as_str()), t.as_str()),
            );
        },
        None => {},
    }
    view::push_part(&mut parts, view.dim(fmt::short_datetime(view.now, view.tz).as_str()));
    let mut line = " ".to_owned();
    line.append(text::join(&parts, view.sep().as_str()).as_str());
    line.append("\n");
    line
}

// ---------------------------------------------------------------------------
// the listing
// ---------------------------------------------------------------------------

/// The cards of the jobs, an empty line before each.
pub open spec fn cards_text(entries: Seq<Entry>, v: Viewport) -> Seq<char>
    decreases entries.len(),
{
    if entries.len() == 0 {
        Seq::empty()
    } else {
        cards_text(entries.drop_last(), v) + "\n"@ + card::card_text(entries.last(), v)
    }
}

/// The lines of the jobs.
pub open spec fn rows_text(
    entries: Seq<Entry>,
    c: Cols,
    name_w: nat,
    groups: Seq<Seq<char>>,
    v: Viewport,
) -> Seq<char>
    decreases entries.len(),
{
    if entries.len() == 0 {
        Seq::empty()
    } else {
        rows_text(entries.drop_last(), c, name_w, groups, v) + table::row_text(
            entries.last(),
            c,
            name_w,
            groups,
            v,
        )
    }
}

/// Has the table a column for the group? It has where there are groups to show, unless all jobs
/// share one.
pub open spec fn has_group_column(entries: Seq<Entry>) -> bool {
    groups::charged(entries).len() > 0 && groups::shared(entries) is None
}

/// The table of the jobs.
pub open spec fn table_text(entries: Seq<Entry>, v: Viewport) -> Seq<char> {
    let c = table::cols_for(v.width as int, has_group_column(entries));
    let name_w = table::name_width(c, v.width as int) as nat;
    table::table_header_text(c, name_w, v) + rows_text(
        entries,
        c,
        name_w,
        groups::charged(entries),
        v,
    )
}

/// A listing: the header, the jobs, and what stands under them.
pub open spec fn listing_text(
    server: Seq<char>,
    entries: Seq<Entry>,
    v: Viewport,
    who: Seq<char>,
    totals: Totals,
    balances: Seq<Balance>,
) -> Seq<char> {
    let h = header_text(server, entries, v, who, totals.burn);
    if v.long && entries.len() > 0 {
        h + cards_text(entries, v) + footer::footer_text(entries, v, totals, balances)
    } else {
        let top = if v.long {
            h
        } else {
            h + "\n"@
        };
        if entries.len() == 0 {
            top + "  "@ + paint::dimmed(v.color, "no jobs — submit one with `qsub script.sh`"@) + "\n"@
        } else {
            top + table_text(entries, v) + footer::footer_text(entries, v, totals, balances)
        }
    }
}

/// Without colours, the parts of the header of plain jobs are plain.
proof fn lemma_header_plain(
    server: Seq<char>,
    entries: Seq<Entry>,
    v: Viewport,
    who: Seq<char>,
    burn: Figure,
)
    requires
        !v.color,
        plain::is_plain(server),
        plain::is_plain(who),
        plain::entries_plain(entries),
        plain::figure_plain(burn),
    ensures
        plain::is_plain(header_text(server, entries, v, who, burn)),
{
    broadcast use plain::group_plain;

    lemma_states_plain(entries, 8);
    let p0 = seq!["ABCI-Q "@ + server, who];
    let p1 = p0 + state_parts(entries, false, 8);
    assert(plain::is_plain("ABCI-Q "@)) by {
        reveal_strlit("ABCI-Q ");
    }
    assert(plain::all_plain(p0));
    assert(plain::all_plain(p1));
    assert(plain::is_plain(" GPU"@)) by {
        reveal_strlit(" GPU");
    }
    assert(plain::is_plain(" pt/h"@)) by {
        reveal_strlit(" pt/h");
    }
    assert(plain::is_plain("charged "@)) by {
        reveal_strlit("charged ");
    }
    if let Some(g) = groups::shared(entries) {
        assert(plain::entry_plain(entries[0]));
    }
    assert(plain::all_plain(header_parts(server, entries, v, who, burn)));
    reveal_strlit(" ");
    reveal_strlit("\n");
}

/// Without colours, the counts of the states are plain.
proof fn lemma_states_plain(entries: Seq<Entry>, k: nat)
    ensures
        plain::all_plain(state_parts(entries, false, k)),
    decreases k,
{
    broadcast use plain::group_plain;

    if k > 0 {
        lemma_states_plain(entries, (k - 1) as nat);
        reveal_strlit(" ");
    }
}

/// Without colours, the lines of plain jobs are plain.
proof fn lemma_rows_plain(
    entries: Seq<Entry>,
    c: Cols,
    name_w: nat,
    groups: Seq<Seq<char>>,
    v: Viewport,
)
    requires
        !v.color,
        plain::entries_plain(entries),
    ensures
        plain::is_plain(rows_text(entries, c, name_w, groups, v)),
    decreases entries.len(),
{
    broadcast use {plain::lemma_concat, plain::lemma_empty};

    if entries.len() > 0 {
        lemma_rows_plain(entries.drop_last(), c, name_w, groups, v);
        plain::lemma_row(entries.last(), c, name_w, groups, v);
    }
}

/// Without colours, the cards of plain jobs are plain.
proof fn lemma_cards_plain(entries: Seq<Entry>, v: Viewport)
    requires
        !v.color,
        plain::entries_plain(entries),
    ensures
        plain::is_plain(cards_text(entries, v)),
    decreases entries.len(),
{
    broadcast use {plain::lemma_concat, plain::lemma_empty};

    if entries.len() > 0 {
        lemma_cards_plain(entries.drop_last(), v);
        plain::lemma_card(entries.last(), v);
        reveal_strlit("\n");
    }
}

/// Without colours, a listing holds no control sequence of the terminal, unless it is in the
/// texts that are listed.
pub proof fn law_no_colour(
    server: Seq<char>,
    entries: Seq<Entry>,
    v: Viewport,
    who: Seq<char>,
    totals: Totals,
    balances: Seq<Balance>,
)
    requires
        !v.color,
        plain::is_plain(server),
        plain::is_plain(who),
        plain::entries_plain(entries),
        plain::totals_plain(totals),
        plain::balances_plain(balances),
    ensures
        plain::is_plain(listing_text(server, entries, v, who, totals, balances)),
{
    broadcast use {plain::lemma_concat, plain::lemma_dimmed};

    let c = table::cols_for(v.width as int, has_group_column(entries));
    let name_w = table::name_width(c, v.width as int) as nat;
    lemma_header_plain(server, entries, v, who, totals.burn);
    lemma_cards_plain(entries, v);
    plain::lemma_table_header(c, name_w, v);
    lemma_rows_plain(entries, c, name_w, groups::charged(entries), v);
    plain::lemma_footer(entries, v, totals, balances);
    assert(plain::is_plain("no jobs — submit one with `qsub script.sh`"@)) by {
        reveal_strlit("no jobs — submit one with `qsub script.sh`");
    }
    reveal_strlit("\n");
    reveal_strlit("  ");
}

/// The cards of the jobs.
fn show_cards(entries: &Vec<Entry>, view: &Viewport) -> (r: String)
    ensures
        r@ == cards_text(entries@, *view),
{
    let mut out = String::new();
    let mut i: usize = 0;
    assert(out@ == cards_text(entries@.take(0), *view));
    while i < entries.len()
        invariant
            i <= entries@.len(),
            out@ == cards_text(entries@.take(i as int), *view),
        decreases entries@.len() - i,
    {
        assert(entries@.take(i + 1).drop_last() == entries@.take(i as int));
        out.append("\n");
        out.append(card::card(&entries[i], view).as_str());
        i += 1;
    }
    assert(entries@.take(i as int) == entries@);
    out
}

/// The table of the jobs.
fn show_table(entries: &Vec<Entry>, view: &Viewport) -> (r: String)
    ensures
        r@ == table_text(entries@, *view),
{
    let groups = groups::charged_groups(entries);
    let ghost g = groups::charged(entries@);
    let (cols, name_w) = table::fit(
        view.width,
        groups.len() > 0 && groups::shared_group(entries).is_none(),
    );
    let mut rows = String::new();
    let mut i: usize = 0;
    assert(rows@ == rows_text(entries@.take(0), cols, name_w as nat, g, *view));
    while i < entries.len()
        invariant
            i <= entries@.len(),
            g == text::texts(groups@),
            rows@ == rows_text(entries@.take(i as int), cols, name_w as nat, g, *view),
        decreases entries@.len() - i,
    {
        assert(entries@.take(i + 1).drop_last() == entries@.take(i as int));
        rows.append(table::row(&entries[i], &cols, name_w, &groups, view).as_str());
        i += 1;
    }
    assert(entries@.take(i as int) == entries@);
    let mut out = table::table_header(&cols, name_w, view);
    out.append(rows.as_str());
    out
}

/// A listing: the header, the jobs, and what stands under them.
pub fn render(
    snap: &Snapshot,
    jobs: &Vec<Entry>,
    view: &Viewport,
    who: &str,
    totals: &Totals,
    balances: &Vec<Balance>,
) -> (r: String)
    ensures
        r@ == listing_text(snap.server@, jobs@, *view, who@, *totals, balances@),
{
    let mut out = header(snap, jobs, view, who, &totals.burn);
    if !view.long {
        out.append("\n");
    }
    if jobs.len() == 0 {
        out.append("  ");
        out.append(view.dim("no jobs — submit one with `qsub script.sh`").as_str());
        out.append("\n");
        return out;
    }
    if view.long {
        out.append(show_cards(jobs, view).as_str());
    } else {
        out.append(show_table(jobs, view).as_str());
    }
    out.append(footer::footer(jobs, view, totals, balances).as_str());
    out
}

} // verus!

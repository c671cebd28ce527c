//! Laws of what a listing shows of its jobs: the header, the cells, the cards and the lines
//! under them.

use crate::footer::{Balance, Totals};
use crate::pbs::State;
use crate::reals::{Figure, Real};
use crate::view::{Entry, Viewport};
use crate::card;
use crate::digits;
use crate::fmt;
use crate::footer;
use crate::groups;
use crate::listing_laws;
use crate::order;
use crate::pbs;
use crate::render;
use crate::table;
use crate::text;
use crate::view;
use vstd::prelude::*;

verus! {

// ---------------------------------------------------------------------------
// the header
// ---------------------------------------------------------------------------

/// The number of jobs in a state grows by one with each job in it, and with no other.
pub proof fn law_state_counts(entries: Seq<Entry>, e: Entry, s: State)
    ensures
        render::jobs_in(Seq::empty(), s) == 0,
        e.job.state == s ==> render::jobs_in(entries.push(e), s) == render::jobs_in(entries, s) + 1,
        e.job.state != s ==> render::jobs_in(entries.push(e), s) == render::jobs_in(entries, s),
{
    assert(entries.push(e).drop_last() == entries);
}

/// The GPUs of a listing are those of its running jobs.
pub proof fn law_gpu_count(entries: Seq<Entry>, e: Entry)
    ensures
        render::running_gpus(Seq::empty()) == 0,
        e.job.state == State::Running ==> render::running_gpus(entries.push(e))
            == render::running_gpus(entries) + e.job.ngpus,
        e.job.state != State::Running ==> render::running_gpus(entries.push(e))
            == render::running_gpus(entries),
{
    assert(entries.push(e).drop_last() == entries);
}

/// The header names the server and whose jobs are shown; says how many are in each state that
/// occurs, how many GPUs run, and what they burn where that is above nothing; and ends with the
/// time.
pub proof fn law_header(server: Seq<char>, entries: Seq<Entry>, v: Viewport, who: Seq<char>, burn: Figure)
    requires
        !v.color,
        render::running_gpus(entries) <= u64::MAX,
    ensures
        ({
            let parts = render::header_parts(server, entries, v, who, burn);
            let states = render::state_parts(entries, false, 8);
            &&& parts.len() >= 3 + states.len()
            &&& parts[0] == "ABCI-Q "@ + server
            &&& parts[1] == who
            &&& parts.subrange(2, 2 + states.len() as int) == states
            &&& parts.last() == fmt::datetime_text(v.now as int, v.tz as int)
            &&& render::running_gpus(entries) > 0 ==> parts[2 + states.len() as int]
                == digits::decimal(render::running_gpus(entries) as nat) + " GPU"@
            &&& burn.value.above(Real { bits: 0 }) ==> parts.contains(
                view::trimmed_figure(burn) + " pt/h"@,
            )
        }),
{
    let parts = render::header_parts(server, entries, v, who, burn);
    let states = render::state_parts(entries, false, 8);
    let n = 2 + states.len();
    lemma_gpus_positive(entries);
    assert(parts.subrange(2, n as int) == states);
    if burn.value.above(Real { bits: 0 }) {
        let k: int = if render::running_gpus(entries) > 0 { n as int + 1 } else { n as int };
        assert(parts[k] == view::trimmed_figure(burn) + " pt/h"@);
    }
}

/// The GPUs of running jobs are no less than nothing.
proof fn lemma_gpus_positive(entries: Seq<Entry>)
    ensures
        render::running_gpus(entries) >= 0,
    decreases entries.len(),
{
    if entries.len() > 0 {
        lemma_gpus_positive(entries.drop_last());
    }
}

/// Each state that occurs has a part in the header, with its number and its name, active work
/// first.
pub proof fn law_header_states(entries: Seq<Entry>, s: State)
    requires
        render::jobs_in(entries, s) > 0,
    ensures
        render::state_parts(entries, false, 8).contains(
            digits::decimal(render::jobs_in(entries, s)) + " "@ + state_name(s),
        ),
{
    lemma_state_part(entries, s, 8);
    lemma_state_names(s);
}

/// The name of a state.
pub open spec fn state_name(s: State) -> Seq<char> {
    match s {
        State::Running => seq!['r', 'u', 'n', 'n', 'i', 'n', 'g'],
        State::Queued => seq!['q', 'u', 'e', 'u', 'e', 'd'],
        State::Held => seq!['h', 'e', 'l', 'd'],
        State::Waiting => seq!['w', 'a', 'i', 't', 'i', 'n', 'g'],
        State::Exiting => seq!['e', 'x', 'i', 't', 'i', 'n', 'g'],
        State::Finished => seq!['f', 'i', 'n', 'i', 's', 'h', 'e', 'd'],
        State::Suspended => seq!['s', 'u', 's', 'p', 'e', 'n', 'd', 'e', 'd'],
        State::Other => seq!['u', 'n', 'k', 'n', 'o', 'w', 'n'],
    }
}

/// The names of the states.
proof fn lemma_state_names(s: State)
    ensures
        pbs::state_label(s) == state_name(s),
{
    reveal_strlit("running");
    reveal_strlit("queued");
    reveal_strlit("held");
    reveal_strlit("waiting");
    reveal_strlit("exiting");
    reveal_strlit("finished");
    reveal_strlit("suspended");
    reveal_strlit("unknown");
}

/// The part of a state that occurs is among those of the ranks up to its own.
proof fn lemma_state_part(entries: Seq<Entry>, s: State, k: nat)
    requires
        render::jobs_in(entries, s) > 0,
        listing_laws::turn(s) < k <= 8,
    ensures
        render::state_parts(entries, false, k).contains(
            digits::decimal(render::jobs_in(entries, s)) + " "@ + pbs::state_label(s),
        ),
    decreases k,
{
    let part = digits::decimal(render::jobs_in(entries, s)) + " "@ + pbs::state_label(s);
    let all = render::state_parts(entries, false, k);
    let before = render::state_parts(entries, false, (k - 1) as nat);
    if listing_laws::turn(s) == k - 1 {
        assert(render::state_ranked(k - 1) == s);
        assert(all.last() == part);
    } else {
        lemma_state_part(entries, s, (k - 1) as nat);
        let i = choose|i: int| 0 <= i < before.len() && before[i] == part;
        assert(all[i] == part);
    }
}

// ---------------------------------------------------------------------------
// the cells
// ---------------------------------------------------------------------------

/// What the cells of a row say of a job: its GPUs, the time used and asked for, the points spent
/// and reserved, and its nodes, each with a hyphen where it is not known.
pub proof fn law_cells(e: Entry, v: Viewport)
    ensures
        ({
            let j = *e.job;
            &&& j.ngpus == 0 ==> table::gpu_text(j) == "-"@
            &&& j.ngpus > 0 ==> table::gpu_text(j) == digits::decimal(j.ngpus as nat)
            &&& j.walltime_req is None ==> table::time_text(j) == "-"@
            &&& j.walltime_req matches Some(q) ==> (j.walltime_used matches Some(u)
                ==> table::time_text(j) == fmt::hm_text(u as nat) + "/"@ + fmt::hm_text(q as nat))
                && (j.walltime_used is None ==> table::time_text(j) == "-/"@ + fmt::hm_text(
                q as nat,
            ))
            &&& !(listing_laws::rated(j, v.rates@) && j.walltime_req is Some) ==> table::points_pair(
                e,
                v,
            ) == "-"@
            &&& listing_laws::rated(j, v.rates@) && j.walltime_req is Some && j.walltime_used is Some
                ==> table::points_pair(e, v) == fmt::points_text(e.spent) + "/"@ + fmt::points_text(
                e.reserved,
            )
            &&& listing_laws::rated(j, v.rates@) && j.walltime_req is Some && j.walltime_used is None
                ==> table::points_pair(e, v) == "0/"@ + fmt::points_text(e.reserved)
            &&& j.nodes@.len() == 0 ==> table::node_text(text::texts(j.nodes@)) == "-"@
            &&& j.nodes@.len() == 1 ==> table::node_text(text::texts(j.nodes@)) == j.nodes@[0]@
            &&& j.nodes@.len() > 1 ==> table::node_text(text::texts(j.nodes@)) == j.nodes@[0]@ + "+"@
                + digits::decimal((j.nodes@.len() - 1) as nat)
        }),
{
}

/// A job whose share is known has a bar filled by it and its percentage; one that waits has the
/// name of its state and how long it has waited.
pub proof fn law_progress(e: Entry, v: Viewport)
    requires
        !v.color,
    ensures
        listing_laws::share_known(*e.job) ==> table::walltime_cell(e, v) == view::bar_cell_text(
            v,
            e.share.value,
            e.bar,
            14,
        ) && table::percent_cell(e, v) == fmt::right_aligned(e.share.percent@ + "%"@, 5),
        !listing_laws::share_known(*e.job) ==> table::percent_cell(e, v) == fmt::right_aligned(
            "-"@,
            5,
        ),
        !listing_laws::share_known(*e.job) && (e.job.qtime matches Some(q) && q <= v.now && v.now - q
            <= i64::MAX && e.job.stime is None) ==> table::walltime_cell(e, v) == table::cell(
            "  "@ + pbs::state_label(e.job.state) + " "@ + fmt::hm_text((v.now - e.job.qtime->0) as nat),
            16,
        ),
        !listing_laws::share_known(*e.job) && (e.job.qtime is None || e.job.stime is Some)
            ==> table::walltime_cell(e, v) == table::cell(
            "  "@ + pbs::state_label(e.job.state),
            16,
        ),
{
}

/// A row shows the id, the state, the name and the type of a job, and the cells of the columns
/// that fit, in their order.
pub proof fn law_row(e: Entry, c: table::Cols, name_w: nat, groups: Seq<Seq<char>>, v: Viewport)
    requires
        !v.color,
    ensures
        ({
            let j = *e.job;
            let l0 = " "@ + table::cell(j.short_id@, 8) + " "@ + (view::bullet_text(v.ascii)
                + pbs::state_code(j.state)) + " "@ + table::cell(j.name@, name_w) + " "@ + table::cell(
                pbs::resource_text(pbs::opt_text(j.rtype), j.nodect),
                9,
            ) + " "@;
            let l1 = if c.gpu { l0 + fmt::right_aligned(table::gpu_text(j), 4) + " "@ } else { l0 };
            let l2 = if c.bar { l1 + table::walltime_cell(e, v) + " "@ } else { l1 };
            let l3 = l2 + table::percent_cell(e, v) + " "@;
            let l4 = if c.time { l3 + table::cell(table::time_text(j), 14) + " "@ } else { l3 };
            let l5 = if c.group {
                l4 + table::cell(if j.group@.len() == 0 { "-"@ } else { j.group@ }, 10) + " "@
            } else {
                l4
            };
            let l6 = if c.points { l5 + table::cell(table::points_pair(e, v), 12) + " "@ } else { l5 };
            let l7 = if c.node {
                l6 + table::cell(table::node_text(text::texts(j.nodes@)), 9)
            } else {
                l6
            };
            table::row_text(e, c, name_w, groups, v) == text::trimmed_end(l7) + "\n"@
        }),
{
}

// ---------------------------------------------------------------------------
// the cards
// ---------------------------------------------------------------------------

/// A card has, in this order, its title, what the job asked for, its walltime, why it waits, what
/// it uses, its points, its dates, its exit status, its log and how it was submitted.
pub proof fn law_card(e: &Entry, v: &Viewport, r: String)
    requires
        call_ensures(card::card, (e, v), r),
    ensures
        r@ == card::card_title(*e.job, *v) + card::resource_line(*e.job, *v) + card::walltime_line(*e, *v)
            + card::comment_line(*e.job, *v) + card::usage_line(*e, *v) + card::points_line(*e, *v)
            + card::dates_line(*e.job, *v) + card::exit_line(*e.job, *v) + card::text_line(
            pbs::opt_text(e.job.log_path),
            "log     "@,
            *v,
        ) + card::text_line(pbs::opt_text(e.job.submit_args), "submit  "@, *v),
{
}

/// A titled line of a card.
pub open spec fn titled_line(title: Seq<char>, s: Seq<char>) -> Seq<char> {
    "   "@ + title + " "@ + s + "\n"@
}

/// A card says why a job does not run, where something is said and it does not; how it ended,
/// where it did; and where its log is and how it was submitted, where that is known.
pub proof fn law_card_lines(e: Entry, v: Viewport)
    requires
        !v.color,
    ensures
        ({
            let j = *e.job;
            &&& j.comment is None || j.state == State::Running ==> card::comment_line(j, v).len() == 0
            &&& j.comment is Some && j.state != State::Running ==> card::comment_line(j, v)
                == titled_line(
                "why     "@,
                fmt::ellipsized(
                    j.comment->0@,
                    if v.width > 13 {
                        (v.width - 13) as nat
                    } else {
                        0
                    },
                ),
            )
            &&& j.exit_status is None ==> card::exit_line(j, v).len() == 0
            &&& j.exit_status matches Some(code) ==> card::exit_line(j, v) == titled_line(
                "exit    "@,
                digits::signed_decimal(code as int),
            )
            &&& j.log_path matches Some(p) ==> card::text_line(
                pbs::opt_text(j.log_path),
                "log     "@,
                v,
            ) == titled_line("log     "@, p@)
            &&& j.stime is Some && j.qtime is None ==> card::dates_line(j, v) == titled_line(
                "started "@,
                fmt::datetime_text(j.stime->0 as int, v.tz as int),
            )
            &&& j.stime is Some && j.qtime is Some ==> card::dates_line(j, v) == titled_line(
                "started "@,
                fmt::datetime_text(j.stime->0 as int, v.tz as int) + view::sep_text(v)
                    + "submitted "@ + fmt::datetime_text(j.qtime->0 as int, v.tz as int),
            )
            &&& j.stime is None && j.qtime is Some && j.est_start is None ==> card::dates_line(j, v)
                == titled_line("queued  "@, fmt::datetime_text(j.qtime->0 as int, v.tz as int))
            &&& j.stime is None && j.qtime is Some && j.est_start is Some ==> card::dates_line(j, v)
                == titled_line(
                "queued  "@,
                fmt::datetime_text(j.qtime->0 as int, v.tz as int) + view::sep_text(v)
                    + "estimated start "@ + j.est_start->0@,
            )
            &&& j.stime is None && j.qtime is None ==> card::dates_line(j, v).len() == 0
        }),
{
    let j = *e.job;
    if j.stime is Some && j.qtime is Some {
        assert(card::dates_line(j, v) == titled_line(
            "started "@,
            fmt::datetime_text(j.stime->0 as int, v.tz as int) + view::sep_text(v) + "submitted "@
                + fmt::datetime_text(j.qtime->0 as int, v.tz as int),
        ));
    }
    if j.stime is None && j.qtime is Some && j.est_start is Some {
        assert(card::dates_line(j, v) == titled_line(
            "queued  "@,
            fmt::datetime_text(j.qtime->0 as int, v.tz as int) + view::sep_text(v)
                + "estimated start "@ + j.est_start->0@,
        ));
    }
}

/// The walltime of a card: the share used, the time used and asked for, and what is left while
/// the job runs; or how long it has waited, and what it asked for.
pub proof fn law_card_walltime(e: Entry, v: Viewport)
    requires
        !v.color,
    ensures
        ({
            let j = *e.job;
            let u = j.walltime_used->0;
            let q = j.walltime_req->0;
            let l = "   "@ + "walltime"@ + " "@ + view::bar_cell_text(v, e.share.value, e.card_bar, 24)
                + " "@ + (e.share.percent_tenth@ + "%"@) + "  "@ + fmt::hms_text(u as nat)
                + " used of "@ + fmt::hms_text(q as nat);
            &&& listing_laws::share_known(j) && j.state == State::Running && u <= q
                ==> card::walltime_line(e, v) == l + view::sep_text(v) + fmt::hms_text(
                (q - u) as nat,
            ) + " left"@ + "\n"@
            &&& listing_laws::share_known(j) && j.state == State::Running && u > q
                ==> card::walltime_line(e, v) == l + view::sep_text(v) + fmt::hms_text(0) + " left"@
                + "\n"@
            &&& listing_laws::share_known(j) && j.state != State::Running ==> card::walltime_line(
                e,
                v,
            ) == l + "\n"@
            &&& !listing_laws::share_known(j) && (j.qtime is None || j.stime is Some)
                ==> card::walltime_line(e, v).len() == 0
        }),
{
}

/// The points of a card are shown where both the points spent and those reserved are known.
pub proof fn law_card_points(e: Entry, v: Viewport)
    requires
        !v.color,
    ensures
        ({
            let j = *e.job;
            let known = listing_laws::rated(j, v.rates@) && j.walltime_req is Some && j.walltime_used
                is Some;
            &&& !known ==> card::points_line(e, v).len() == 0
            &&& known ==> card::points_line(e, v) == "   "@ + "points  "@ + " "@ + fmt::points_text(
                e.spent,
            ) + " spent of "@ + fmt::points_text(e.reserved) + " reserved"@ + view::sep_text(v)
                + view::trimmed_figure(e.rate) + " pt/h"@ + "\n"@
        }),
{
}

// ---------------------------------------------------------------------------
// under the jobs
// ---------------------------------------------------------------------------

/// Jobs that are warned of are those that run and have used nine tenths of their walltime, or
/// more; each once, the one with the greatest share first.
pub proof fn law_warnings(entries: Seq<Entry>)
    ensures
        ({
            let list = footer::tightest(entries);
            &&& forall|i: int| #[trigger]
                list.contains(i) <==> 0 <= i < entries.len() && entries[i].job.state == State::Running
                    && listing_laws::share_known(*entries[i].job) && entries[i].share.value.reaches(
                    Real { bits: 0x3fec_cccc_cccc_cccd },
                )
            &&& forall|p: int, q: int|
                0 <= p < q < list.len() ==> #[trigger] list[p] != #[trigger] list[q]
                    && !entries[list[q]].share.value.above(entries[list[p]].share.value)
        }),
{
    let list = footer::tightest(entries);
    let wanted = footer::tight(entries);
    footer::law_tightest(entries);
    assert forall|i: int| #[trigger] list.contains(i) <==> 0 <= i < entries.len()
        && entries[i].job.state == State::Running && listing_laws::share_known(*entries[i].job)
        && entries[i].share.value.reaches(Real { bits: 0x3fec_cccc_cccc_cccd }) by {
        if list.contains(i) {
            let p = choose|p: int| 0 <= p < list.len() && list[p] == i;
            assert(wanted(list[p]));
        } else if 0 <= i < entries.len() {
            assert(wanted(i) ==> list.contains(i));
        }
    }
    assert forall|p: int, q: int| 0 <= p < q < list.len() implies #[trigger] list[p]
        != #[trigger] list[q] && !entries[list[q]].share.value.above(entries[list[p]].share.value) by {
        let key = |i: int| footer::tight_key(entries[i]);
        assert(!order::ahead(key(list[q]), key(list[p])));
    }
}

/// Under the jobs stand the sums, the warnings, and the balances unless points are not asked for.
pub proof fn law_footer(
    entries: &Vec<Entry>,
    view: &Viewport,
    totals: &Totals,
    balances: &Vec<Balance>,
    r: String,
)
    requires
        call_ensures(footer::footer, (entries, view, totals, balances), r),
    ensures
        ({
            let sums = footer::totals_line(*totals, *view);
            let warnings = footer::tight_lines(entries@, footer::tightest(entries@), *view);
            let groups = groups::charged(entries@);
            &&& view.show_points ==> r@ == sums + warnings + footer::balance_lines(
                groups,
                groups,
                balances@,
                *view,
            )
            &&& !view.show_points ==> r@ == sums + warnings
        }),
{
}

/// The sums are shown where one of them is above nothing.
pub proof fn law_totals(t: Totals, v: Viewport)
    requires
        !v.color,
    ensures
        t.spent.value.above(Real { bits: 0 }) || t.reserved.value.above(Real { bits: 0 })
            ==> footer::totals_line(t, v) == "\n "@ + (fmt::points_text(t.spent)
            + " pt spent so far · "@ + fmt::points_text(t.reserved) + " pt reserved by these jobs"@)
            + "\n"@,
        !t.spent.value.above(Real { bits: 0 }) && !t.reserved.value.above(Real { bits: 0 })
            ==> footer::totals_line(t, v).len() == 0,
{
}

/// A balance says what is left of what was granted, and warns exactly where more is reserved
/// than is left.
pub proof fn law_balance(b: Balance, groups: Seq<Seq<char>>, v: Viewport)
    requires
        !v.color,
    ensures
        ({
            let l = " "@ + fmt::padded(b.group@, 12) + " "@ + view::bar_cell_text(
                v,
                b.share.value,
                b.bar,
                12,
            ) + " "@ + fmt::right_aligned(b.share.percent@ + "%"@, 4) + " "@ + fmt::commas_text(b.left)
                + " left of "@ + fmt::commas_text(b.granted);
            &&& !b.committed.value.above(b.left.value) ==> footer::balance_line(b, groups, v) == l
                + "\n"@
            &&& b.committed.value.above(b.left.value) ==> footer::balance_line(b, groups, v) == l + (
            "  "@ + view::warn_text(v.ascii) + " "@ + fmt::commas_text(b.committed)
                + " pt reserved exceeds the balance"@) + "\n"@
        }),
{
}

/// The balances of groups are shown in the order of the groups; that of a group is the first
/// that is known of it, and a group of which none is known has no line.
pub proof fn law_balances(
    names: Seq<Seq<char>>,
    g: Seq<char>,
    groups: Seq<Seq<char>>,
    balances: Seq<Balance>,
    v: Viewport,
    i: int,
)
    requires
        0 <= i <= balances.len(),
        forall|k: int| 0 <= k < i ==> (#[trigger] balances[k]).group@ != g,
        i < balances.len() ==> balances[i].group@ == g,
    ensures
        footer::balance_lines(names.push(g), groups, balances, v) == footer::balance_lines(
            names,
            groups,
            balances,
            v,
        ) + (if i < balances.len() {
            footer::balance_line(balances[i], groups, v)
        } else {
            Seq::empty()
        }),
{
    assert(names.push(g).drop_last() == names);
    lemma_balance_of(balances, g, i);
    if i == balances.len() {
        assert(footer::balance_lines(names, groups, balances, v) + Seq::<char>::empty()
            == footer::balance_lines(names, groups, balances, v));
    }
}

/// The balance of a group is the first of it.
proof fn lemma_balance_of(balances: Seq<Balance>, g: Seq<char>, i: int)
    requires
        0 <= i <= balances.len(),
        forall|k: int| 0 <= k < i ==> (#[trigger] balances[k]).group@ != g,
        i < balances.len() ==> balances[i].group@ == g,
    ensures
        footer::balance_of(balances, g) == (if i < balances.len() {
            Some(balances[i])
        } else {
            None
        }),
    decreases balances.len(),
{
    if i > 0 {
        let rest = balances.skip(1);
        assert(balances[0].group@ != g);
        assert forall|k: int| 0 <= k < i - 1 implies (#[trigger] rest[k]).group@ != g by {
            assert(rest[k] == balances[k + 1]);
        }
        if i < balances.len() {
            assert(rest[i - 1] == balances[i]);
        }
        lemma_balance_of(rest, g, i - 1);
    }
}

} // verus!

//! Laws of how listings, cards, indexes and the view of the cluster are put together.

use crate::capacity::{Gauge, Gauges};
use crate::cluster::{Cluster, Resv};
use crate::follow::Screen;
use crate::footer::{Balance, Totals};
use crate::logs::{Age, FileInfo, Target, Widths};
use crate::paint::Pal;
use crate::pbs::{Job, Snapshot, State};
use crate::reals::Figure;
use crate::search::{Query, ShownView, Tally};
use crate::table::Cols;
use crate::view::{Entry, Viewport};
use crate::capacity;
use crate::card;
use crate::digits;
use crate::fmt;
use crate::follow;
use crate::footer;
use crate::groups;
use crate::listing_laws;
use crate::logs;
use crate::logtext;
use crate::pager;
use crate::paint;
use crate::pbs;
use crate::render;
use crate::search;
use crate::table;
use crate::text;
use crate::view;
use vstd::prelude::*;

verus! {

// ---------------------------------------------------------------------------
// listings
// ---------------------------------------------------------------------------

/// The header is its parts, between separators, on a line.
pub proof fn law_header_line(
    snap: &Snapshot,
    entries: &Vec<Entry>,
    v: &Viewport,
    who: &str,
    burn: &Figure,
    r: String,
)
    requires
        call_ensures(render::header, (snap, entries, v, who, burn), r),
        !v.color,
    ensures
        r@ == seq![' '] + text::joined(
            render::header_parts(snap.server@, entries@, *v, who@, *burn),
            if v.ascii { seq![' ', '|', ' '] } else { seq![' ', '·', ' '] },
        ) + seq!['\n'],
{
    reveal_strlit(" ");
    reveal_strlit("\n");
    reveal_strlit(" | ");
    reveal_strlit(" · ");
    assert(" "@ == seq![' ']);
    assert("\n"@ == seq!['\n']);
    assert(" | "@ == seq![' ', '|', ' ']);
    assert(" · "@ == seq![' ', '·', ' ']);
}

/// Is it how many jobs there are in some state that occurs?
pub open spec fn counts_some_state(entries: Seq<Entry>, part: Seq<char>) -> bool {
    exists|s: State| render::jobs_in(entries, s) > 0 && part == #[trigger] counted_state(entries, s)
}

/// A state that does not occur has no part in the header.
pub proof fn law_absent_states(entries: Seq<Entry>, k: nat)
    requires
        k <= 8,
    ensures
        forall|i: int|
            0 <= i < render::state_parts(entries, false, k).len() ==> counts_some_state(
                entries,
                #[trigger] render::state_parts(entries, false, k)[i],
            ),
    decreases k,
{
    if k > 0 {
        law_absent_states(entries, (k - 1) as nat);
        let before = render::state_parts(entries, false, (k - 1) as nat);
        let all = render::state_parts(entries, false, k);
        let last = render::state_ranked(k - 1);
        assert forall|i: int| 0 <= i < all.len() implies counts_some_state(entries, #[trigger] all[i]) by {
            if i < before.len() {
                assert(all[i] == before[i]);
            } else {
                assert(all[i] == counted_state(entries, last));
            }
        }
    }
}

/// How many jobs there are in a state.
pub open spec fn counted_state(entries: Seq<Entry>, s: State) -> Seq<char> {
    digits::decimal(render::jobs_in(entries, s)) + " "@ + pbs::state_label(s)
}

/// A listing without jobs says so, with nothing under it; one with jobs has a card for each, in
/// the order of the jobs, where it is long, and else a table with a row for each; and what stands
/// under them.
pub proof fn law_listing(
    snap: &Snapshot,
    jobs: &Vec<Entry>,
    v: &Viewport,
    who: &str,
    totals: &Totals,
    balances: &Vec<Balance>,
    r: String,
)
    requires
        call_ensures(render::render, (snap, jobs, v, who, totals, balances), r),
        !v.color,
    ensures
        ({
            let h = render::header_text(snap.server@, jobs@, *v, who@, totals.burn);
            let f = footer::footer_text(jobs@, *v, *totals, balances@);
            &&& jobs@.len() == 0 && v.long ==> r@ == h
                + "  "@ + "no jobs — submit one with `qsub script.sh`"@ + "\n"@
            &&& jobs@.len() == 0 && !v.long ==> r@ == h + "\n"@
                + "  "@ + "no jobs — submit one with `qsub script.sh`"@ + "\n"@
            &&& jobs@.len() > 0 && v.long ==> r@ == h + render::cards_text(jobs@, *v) + f
            &&& jobs@.len() > 0 && !v.long ==> r@ == h + "\n"@ + render::table_text(jobs@, *v) + f
        }),
{
}

/// Each job has a card behind an empty line, and a row of the table, in the order of the jobs.
pub proof fn law_each_job(
    entries: Seq<Entry>,
    e: Entry,
    c: Cols,
    w: nat,
    groups: Seq<Seq<char>>,
    v: Viewport,
)
    ensures
        render::cards_text(entries.push(e), v) == render::cards_text(entries, v) + "\n"@
            + card::card_text(e, v),
        render::rows_text(entries.push(e), c, w, groups, v) == render::rows_text(
            entries,
            c,
            w,
            groups,
            v,
        ) + table::row_text(e, c, w, groups, v),
        render::cards_text(Seq::empty(), v).len() == 0,
        render::rows_text(Seq::empty(), c, w, groups, v).len() == 0,
{
    assert(entries.push(e).drop_last() == entries);
}

/// Where columns do not fit, the node goes first, then the points, the GPUs, the group, the bar and
/// the time; the group has a column only where it is asked for.
pub proof fn law_columns(width: usize, grouped: bool, r: (Cols, usize))
    requires
        call_ensures(table::fit, (width, grouped), r),
    ensures
        ({
            let c = r.0;
            &&& c.node ==> c.points
            &&& c.points ==> c.gpu
            &&& c.gpu && grouped ==> c.group
            &&& c.gpu ==> c.bar
            &&& c.group ==> c.bar && grouped
            &&& c.bar ==> c.time
            &&& r.1 >= 14
        }),
{
}

/// The states in colour: green where a job runs, yellow where it is queued, and so on.
pub proof fn law_state_colours(s: &State, r: &'static str)
    requires
        call_ensures(State::color, (s,), r),
    ensures
        s is Running ==> r@ == "32"@,
        s is Queued ==> r@ == "33"@,
        s is Held ==> r@ == "35"@,
        s is Waiting ==> r@ == "34"@,
        s is Exiting ==> r@ == "36"@,
        s is Finished ==> r@ == "90"@,
        s is Suspended ==> r@ == "31"@,
        s is Other ==> r@ == "37"@,
{
}

/// Text is coloured only where colours are on; then it stands between the colour and its end.
pub proof fn law_paint(on: bool, code: &str, s: &str, r: String)
    requires
        call_ensures(paint::paint, (on, code, s), r),
    ensures
        !on || s@.len() == 0 ==> r@ == s@,
        on && s@.len() > 0 ==> r@ == seq!['\x1b', '['] + code@ + seq!['m'] + s@ + seq![
            '\x1b',
            '[',
            '0',
            'm',
        ],
{
    reveal_strlit("\x1b[");
    reveal_strlit("m");
    reveal_strlit("\x1b[0m");
    assert("\x1b["@ == seq!['\x1b', '[']);
    assert("m"@ == seq!['m']);
    assert("\x1b[0m"@ == seq!['\x1b', '[', '0', 'm']);
}

/// Six colours come round, and are six.
pub proof fn law_hues(i: usize, j: usize, a: &'static str, b: &'static str)
    requires
        call_ensures(paint::hue_of, (i,), a),
        call_ensures(paint::hue_of, (j,), b),
    ensures
        i % 6 == j % 6 <==> a@ == b@,
{
    reveal_strlit("36");
    reveal_strlit("35");
    reveal_strlit("33");
    reveal_strlit("32");
    reveal_strlit("94");
    reveal_strlit("95");
    assert(a@[0] == b@[0] && a@[1] == b@[1] ==> i % 6 == j % 6);
}

// ---------------------------------------------------------------------------
// groups
// ---------------------------------------------------------------------------

/// The charged groups are those of the jobs, each once, in order.
pub proof fn law_charged_groups(entries: &Vec<Entry>, r: Vec<String>)
    requires
        call_ensures(groups::charged_groups, (entries,), r),
    ensures
        forall|i: int|
            0 <= i < entries@.len() && (#[trigger] entries@[i]).job.group@.len() > 0 ==> text::texts(
                r@,
            ).contains(entries@[i].job.group@),
        forall|g: Seq<char>| #[trigger]
            text::texts(r@).contains(g) ==> g.len() > 0 && exists|i: int|
                0 <= i < entries@.len() && (#[trigger] entries@[i]).job.group@ == g,
        forall|p: int, q: int|
            0 <= p < q < r@.len() ==> text::text_before(#[trigger] r@[p]@, #[trigger] r@[q]@),
{
    groups::law_charged(entries@);
    let t = text::texts(r@);
    assert forall|p: int, q: int| 0 <= p < q < r@.len() implies text::text_before(
        #[trigger] r@[p]@,
        #[trigger] r@[q]@,
    ) by {
        assert(t[p] == r@[p]@ && t[q] == r@[q]@);
    }
}

/// All jobs share a group exactly where each is charged to it.
pub proof fn law_shared_group(entries: &Vec<Entry>, r: Option<String>)
    requires
        call_ensures(groups::shared_group, (entries,), r),
        entries@.len() > 0,
    ensures
        r matches Some(g) ==> g@.len() > 0 && forall|i: int|
            0 <= i < entries@.len() ==> (#[trigger] entries@[i]).job.group@ == g@,
        r is None ==> entries@[0].job.group@.len() == 0 || exists|i: int|
            0 <= i < entries@.len() && (#[trigger] entries@[i]).job.group@ != entries@[0].job.group@,
{
}

/// The colour of a group is that of its place among the groups.
pub proof fn law_group_colour(groups_named: &Vec<String>, i: int, r: &'static str, g: &str)
    requires
        call_ensures(groups::group_color, (groups_named, g), r),
        0 <= i < groups_named@.len(),
        groups_named@[i]@ == g@,
        forall|k: int| 0 <= k < i ==> (#[trigger] groups_named@[k])@ != g@,
    ensures
        r@ == paint::hue(i),
{
    let t = text::texts(groups_named@);
    assert forall|k: int| 0 <= k < i implies #[trigger] t[k] != g@ by {
        assert(t[k] == groups_named@[k]@);
    }
    assert(t[i] == g@);
    lemma_place(t, g@, i);
}

/// The place of a name is that of its first occurrence.
proof fn lemma_place(names: Seq<Seq<char>>, g: Seq<char>, i: int)
    requires
        0 <= i < names.len(),
        names[i] == g,
        forall|k: int| 0 <= k < i ==> #[trigger] names[k] != g,
    ensures
        groups::place_of(names, g) == i,
    decreases names.len(),
{
    if i > 0 {
        let rest = names.skip(1);
        assert(names[0] != g);
        assert forall|k: int| 0 <= k < i - 1 implies #[trigger] rest[k] != g by {
            assert(rest[k] == names[k + 1]);
        }
        lemma_place(rest, g, i - 1);
    }
}

// ---------------------------------------------------------------------------
// cards
// ---------------------------------------------------------------------------

/// The title of a card: the id, the name, and behind them the state, the queue, and the service
/// where there is one.
pub proof fn law_card_title(j: Job, v: Viewport)
    requires
        !v.color,
    ensures
        ({
            let name = fmt::ellipsized(j.name@, if v.width > 38 { (v.width - 38) as nat } else { 0 });
            let l = " "@ + view::bullet_text(v.ascii) + " "@ + j.id@ + "  "@ + name;
            let place = "   "@ + pbs::state_label(j.state) + " · "@ + j.queue@;
            &&& j.service@.len() == 0 ==> card::card_title(j, v) == l + place + "\n"@
            &&& j.service@.len() > 0 ==> card::card_title(j, v) == l + (place + " · "@ + j.service@)
                + "\n"@
        }),
{
}

/// What a card says of resources: the type first; and the cores, the GPUs, the memory, the nodes
/// and the group, each only where there is one.
pub proof fn law_card_resources(j: Job)
    ensures
        ({
            let parts = card::resource_parts(j);
            let n = 1 + one(j.ncpus > 0) + one(j.ngpus > 0) + one(j.mem_req@.len() > 0) + one(
                j.nodes@.len() > 0,
            ) + one(j.group@.len() > 0);
            &&& parts.len() == n
            &&& parts[0] == pbs::resource_text(pbs::opt_text(j.rtype), j.nodect)
            &&& j.ncpus > 0 ==> parts[1] == digits::decimal(j.ncpus as nat) + " CPU"@
            &&& j.ngpus > 0 ==> parts[1 + one(j.ncpus > 0)] == digits::decimal(j.ngpus as nat)
                + " GPU"@
            &&& j.mem_req@.len() > 0 ==> parts[1 + one(j.ncpus > 0) + one(j.ngpus > 0)] == j.mem_req@
            &&& j.nodes@.len() > 0 ==> parts[n - 1 - one(j.group@.len() > 0)] == text::joined(
                text::texts(j.nodes@),
                ","@,
            )
            &&& j.group@.len() > 0 ==> parts[n - 1] == "charged "@ + j.group@
        }),
{
}

/// 1 where something holds, and else 0.
pub open spec fn one(b: bool) -> int {
    if b {
        1
    } else {
        0
    }
}

/// What a card says of what a job uses: its load and its memory, each only where it is known, and
/// no line where neither is.
pub proof fn law_card_usage(e: Entry, v: Viewport)
    requires
        !v.color,
    ensures
        ({
            let parts = card::usage_parts(e);
            let load = e.job.cpupercent is Some && e.load is Some;
            let mem = e.job.mem_used_kb is Some;
            &&& parts.len() == one(load) + one(mem)
            &&& load ==> parts[0] == "cpu "@ + e.load->0.percent@ + "% ("@ + e.load->0.cores@ + " of "@
                + digits::decimal(e.job.ncpus as nat) + " cores)"@
            &&& mem ==> parts.last() == "mem "@ + fmt::size_text(e.job.mem_used_kb->0 as int)
            &&& !load && !mem ==> card::usage_line(e, v).len() == 0
            &&& load || mem ==> card::usage_line(e, v) == "   "@ + "usage   "@ + " "@ + text::joined(
                parts,
                view::sep_text(v),
            ) + "\n"@
        }),
{
}

/// The exit status of a job is green where it is 0, and red where it is not.
pub proof fn law_exit_colour(j: Job, v: Viewport, code: i64)
    requires
        v.color,
        j.exit_status == Some(code),
        digits::signed_decimal(code as int).len() > 0,
    ensures
        code == 0 ==> card::exit_line(j, v) == card::titled(v, "exit    "@) + paint::painted(
            true,
            "32"@,
            digits::signed_decimal(code as int),
        ) + "\n"@,
        code != 0 ==> card::exit_line(j, v) == card::titled(v, "exit    "@) + paint::painted(
            true,
            "31"@,
            digits::signed_decimal(code as int),
        ) + "\n"@,
{
}

/// A job that waits, whose share is not known: how long it has waited, and what it asked for or
/// that it has no limit.
pub proof fn law_card_wait(e: Entry, v: Viewport, q: i64)
    requires
        !v.color,
        !listing_laws::share_known(*e.job),
        e.job.qtime == Some(q),
        e.job.stime is None,
        0 <= v.now - q <= i64::MAX,
    ensures
        ({
            let l = "   "@ + "walltime"@ + " "@ + pbs::state_label(e.job.state) + " "@ + fmt::hms_text(
                (v.now - q) as nat,
            ) + view::sep_text(v);
            &&& e.job.walltime_req matches Some(w) ==> card::walltime_line(e, v) == l + fmt::hms_text(
                w as nat,
            ) + " requested"@ + "\n"@
            &&& e.job.walltime_req is None ==> card::walltime_line(e, v) == l + "no limit"@ + "\n"@
        }),
{
}

// ---------------------------------------------------------------------------
// the cluster
// ---------------------------------------------------------------------------

/// The view of the cluster: the title and the nodes, what is free, what fits, the limits, the jobs
/// and the next reservation.
pub proof fn law_cluster_view(c: &Cluster, g: &Gauges, v: &Viewport, r: String)
    requires
        call_ensures(capacity::show_cluster, (c, g, v), r),
    ensures
        r@ == capacity::heading_text(*c, *v) + "\n"@ + capacity::gauges_text(*c, *g, *v) + "\n"@
            + capacity::fits_text(*c, *v) + capacity::limits_text(*c, *v) + capacity::jobs_text(*c, *v)
            + capacity::window_text(*c, *v),
{
}

/// What the view of the cluster says of nodes, jobs and limits: each number in its place, and a
/// limit only where the queue sets it.
pub proof fn law_cluster_lines(c: Cluster, v: Viewport)
    requires
        !v.color,
    ensures
        ({
            let sep = view::sep_text(v);
            let fits = if c.limit_user_nodes matches Some(cap) && cap < c.nodes_idle {
                c.limit_user_nodes->0 as int
            } else {
                c.nodes_idle as int
            };
            let start = " "@ + fmt::padded("fits now"@, 11) + " "@ + "rt_QF="@ + capacity::counted(fits)
                + " ("@ + capacity::counted(c.nodes_idle as int) + " idle"@;
            let end = ")"@ + sep + "rt_QG "@ + capacity::counted(c.gpus_free as int) + " GPUs"@ + sep
                + "rt_QC "@ + capacity::counted(c.cpus_free as int) + " cores\n"@;
            let limits = " "@ + fmt::padded("limits"@, 11) + " "@;
            &&& capacity::heading_text(c, v) == " "@ + ("ABCI-Q "@ + c.server@) + sep + "cluster"@ + sep
                + fmt::datetime_text(v.now as int, v.tz as int) + "\n "@ + capacity::counted(
                c.pool as int,
            ) + " nodes reachable by "@ + c.queue@ + sep + capacity::counted(c.offline as int)
                + " offline/down excluded\n"@
            &&& c.limit_user_nodes is None ==> capacity::fits_text(c, v) =~= start + end
            &&& c.limit_user_nodes matches Some(cap) ==> capacity::fits_text(c, v) =~= start
                + ", per-user cap "@ + capacity::counted(cap as int) + end
            &&& c.limit_user_nodes is None && c.limit_cluster_nodect is None ==> capacity::limits_text(
                c,
                v,
            ).len() == 0
            &&& c.limit_user_nodes is Some && c.limit_cluster_nodect is None ==> capacity::limits_text(
                c,
                v,
            ) == limits + capacity::counted(c.limit_user_nodes->0 as int)
                + " rt_QF nodes running per user"@ + "\n"@
            &&& c.limit_user_nodes is None && c.limit_cluster_nodect is Some ==> capacity::limits_text(
                c,
                v,
            ) == limits + capacity::counted(c.limit_cluster_nodect->0 as int)
                + " nodes running cluster-wide"@ + "\n"@
            &&& c.limit_user_nodes is Some && c.limit_cluster_nodect is Some ==> capacity::limits_text(
                c,
                v,
            ) == limits + capacity::counted(c.limit_user_nodes->0 as int)
                + " rt_QF nodes running per user"@ + sep + capacity::counted(
                c.limit_cluster_nodect->0 as int,
            ) + " nodes running cluster-wide"@ + "\n"@
            &&& capacity::jobs_text(c, v) == " "@ + fmt::padded("jobs"@, 11) + " "@ + capacity::counted(
                c.running as int,
            ) + " running"@ + sep + capacity::counted(c.queued as int) + " queued"@ + sep
                + capacity::counted(c.held as int) + " held\n"@
        }),
{
}

/// What is free of GPUs, of cores and of nodes.
pub proof fn law_cluster_gauges(c: Cluster, g: Gauges, v: Viewport)
    ensures
        capacity::gauges_text(c, g, v) == capacity::gauge_text(v, "GPU"@, g.gpus) + capacity::counted(
            c.gpus_free as int,
        ) + " of "@ + capacity::counted(c.gpus_total as int) + " free\n"@ + capacity::gauge_text(
            v,
            "CPU"@,
            g.cpus,
        ) + capacity::counted(c.cpus_free as int) + " of "@ + capacity::counted(c.cpus_total as int)
            + " cores free\n"@ + capacity::gauge_text(v, "NODE"@, g.nodes) + capacity::counted(
            c.nodes_idle as int,
        ) + " idle"@ + view::sep_text(v) + capacity::counted(c.nodes_busy as int) + " in use\n"@,
{
}

/// A bar shows its share and its percentage.
pub proof fn law_gauge(v: Viewport, label: Seq<char>, g: Gauge)
    requires
        !v.color,
    ensures
        capacity::gauge_text(v, label, g) == " "@ + fmt::padded(label, 5) + " "@ + view::bar_cell_text(
            v,
            g.share.value,
            g.fill,
            20,
        ) + " "@ + fmt::right_aligned(g.share.percent@ + "%"@, 4) + " "@,
{
}

/// The next reservation: when it begins, when it ends where that is later, with the date on
/// another day alone; its name, its nodes, and how long it is until then.
pub proof fn law_window(c: Cluster, v: Viewport, w: Resv)
    requires
        !v.color,
        c.next_resv == Some(w),
    ensures
        ({
            let from = fmt::datetime_text(w.start as int, v.tz as int);
            let arrow = if v.ascii { " -> "@ } else { " → "@ };
            let one_day = fmt::local_day(w.start as int, v.tz as int) == fmt::local_day(
                w.end as int,
                v.tz as int,
            );
            &&& i64::MIN <= w.start - v.now <= i64::MAX ==> capacity::window_text(c, v) == " "@
                + fmt::padded("next window"@, 11) + " "@ + capacity::span_text(w, v) + view::sep_text(v)
                + w.name@ + view::sep_text(v) + capacity::counted(w.nodect as int) + " nodes"@
                + view::sep_text(v) + "in "@ + fmt::until_text(w.start - v.now) + "\n"@
            &&& w.end <= w.start ==> capacity::span_text(w, v) == from
            &&& w.end > w.start && one_day ==> capacity::span_text(w, v) == from + arrow
                + fmt::clock_text(w.end as int, v.tz as int)
            &&& w.end > w.start && !one_day ==> capacity::span_text(w, v) == from + arrow
                + fmt::datetime_text(w.end as int, v.tz as int)
        }),
{
}

/// Where there is no reservation to come, the view of the cluster has no line of it.
pub proof fn law_no_window(c: Cluster, v: Viewport)
    requires
        c.next_resv is None,
    ensures
        capacity::window_text(c, v).len() == 0,
{
}

// ---------------------------------------------------------------------------
// pages
// ---------------------------------------------------------------------------

/// The title of a job's page: state and type; and GPUs, walltime, points and nodes, each only
/// where it is known.
pub proof fn law_title(e: Entry, v: Viewport)
    ensures
        ({
            let j = *e.job;
            let parts = pager::title_parts(e, v);
            let priced = listing_laws::rated(j, v.rates@) && j.walltime_req is Some;
            let n = 2 + one(j.ngpus > 0) + one(listing_laws::share_known(j)) + one(priced) + one(
                j.nodes@.len() > 0,
            );
            &&& parts.len() == n
            &&& parts[0] == pbs::state_label(j.state)
            &&& parts[1] == pbs::resource_text(pbs::opt_text(j.rtype), j.nodect)
            &&& j.ngpus > 0 ==> parts[2] == digits::decimal(j.ngpus as nat) + " GPU"@
            &&& listing_laws::share_known(j) ==> parts[2 + one(j.ngpus > 0)] == "wall "@
                + e.share.percent@ + "% ("@ + table::time_text(j) + ")"@
            &&& priced ==> parts[n - 1 - one(j.nodes@.len() > 0)] == table::points_pair(e, v) + " pt"@
            &&& j.nodes@.len() > 0 ==> parts[n - 1] == table::node_text(text::texts(j.nodes@))
        }),
{
}

/// The tab of a job: its key where it is one of the first nine, its id, a star where it is
/// marked, and its name; in brackets where its page is open.
pub proof fn law_tab(e: Entry, i: int, marked: bool, open: bool)
    requires
        i >= 0,
    ensures
        ({
            let name = fmt::ellipsized(e.job.name@, 6);
            let star = if marked { seq!['*'] } else { Seq::empty() };
            let key = if i < 9 { digits::decimal((i + 1) as nat) + seq![':'] } else { Seq::empty() };
            let inside = key + e.job.short_id@ + star + seq![' '] + name;
            &&& open ==> pager::tab(e, i, marked, open) == seq![' ', ' ', '['] + inside + seq![']']
            &&& !open ==> pager::tab(e, i, marked, open) == seq![' ', ' '] + inside
        }),
{
    reveal_strlit("*");
    reveal_strlit("");
    reveal_strlit(":");
    reveal_strlit(" ");
    reveal_strlit("  ");
    reveal_strlit("  [");
    reveal_strlit("]");
    assert("*"@ == seq!['*']);
    assert(""@ == Seq::<char>::empty());
    assert(":"@ == seq![':']);
    assert(" "@ == seq![' ']);
    assert("  "@ == seq![' ', ' ']);
    assert("  ["@ == seq![' ', ' ', '[']);
    assert("]"@ == seq![']']);
}

/// New lines below the screen are counted where there are some.
pub proof fn law_fresh(n: nat)
    ensures
        n == 0 ==> pager::fresh_text(n).len() == 0,
        n == 1 ==> pager::fresh_text(n) == " · "@ + digits::decimal(1) + " new line below"@,
        n > 1 ==> pager::fresh_text(n) == " · "@ + digits::decimal(n) + " new lines below"@,
{
}

// ---------------------------------------------------------------------------
// the index of logs
// ---------------------------------------------------------------------------

/// The line of a log in the index: a mark, its number, the label, the state, the name, how long
/// it is, when it was written and where it is; the size and the time with a hyphen where there is
/// no file.
pub proof fn law_index_row(mark: Seq<char>, k: nat, t: Target, f: Option<FileInfo>, w: Widths)
    ensures
        ({
            let size = match f {
                Some(i) => logtext::bytes_text(i.len as int),
                None => "-"@,
            };
            let age = match f {
                Some(FileInfo { age: Age::Secs(n), .. }) => logtext::ago_text(Some(n)),
                Some(FileInfo { age: Age::Ahead, .. }) => "0s"@,
                _ => "-"@,
            };
            logs::index_row(mark, k, t, f, w, false) == mark + fmt::right_aligned(
                digits::decimal(k),
                w.number_w as nat,
            ) + " "@ + fmt::padded(t.label@, w.label_w as nat) + " "@ + fmt::padded(
                pbs::state_code(t.job.state),
                2,
            ) + " "@ + fmt::padded(fmt::ellipsized(t.job.name@, 20), 20) + " "@ + fmt::right_aligned(
                size,
                9,
            ) + " "@ + fmt::right_aligned(age, 7) + " "@ + logtext::ellipsized_front(
                t.path@,
                w.path_w as int,
            ) + "\n"@
        }),
{
}

/// The index has a row for each log, numbered from 1 on, and says what a hyphen means exactly
/// where a file is missing.
pub proof fn law_index(
    targets: &Vec<Target>,
    files: &Vec<Option<FileInfo>>,
    width: usize,
    pal: Pal,
    r: String,
)
    requires
        call_ensures(logs::list, (targets, files, width, pal), r),
        files@.len() == targets@.len(),
        !pal.on,
    ensures
        ({
            let w = logs::index_widths(logs::target_views(targets@), width as int);
            let rows = logs::index_header(w, false) + logs::index_rows(
                targets@,
                files@,
                0,
                targets@.len(),
                None,
                w,
                false,
            );
            let hint = " "@ + "follow: qlog -f · search: qlog -g PATTERN · open: less $(qlog -p <jobid>)"@
                + "\n"@;
            let note = " "@ + "- = no file yet: job not started, or output spooled without #PBS -k oed"@
                + "\n"@;
            let missing = exists|i: int| 0 <= i < files@.len() && (#[trigger] files@[i]) is None;
            &&& missing ==> r@ =~= rows + note + hint
            &&& !missing ==> r@ =~= rows + hint
        }),
{
}

/// The rows of an index, and the mark of the one that the cursor is on.
pub proof fn law_index_rows(
    targets: Seq<Target>,
    files: Seq<Option<FileInfo>>,
    from: nat,
    to: nat,
    cursor: Option<usize>,
    w: Widths,
    on: bool,
)
    requires
        from <= to < targets.len(),
    ensures
        logs::index_rows(targets, files, from, from, cursor, w, on).len() == 0,
        logs::index_rows(targets, files, from, to + 1, cursor, w, on) == logs::index_rows(
            targets,
            files,
            from,
            to,
            cursor,
            w,
            on,
        ) + logs::index_row(
            if cursor is Some && cursor->0 == to { ">"@ } else { " "@ },
            to + 1,
            targets[to as int],
            files[to as int],
            w,
            on,
        ),
{
}

/// The paths of logs, a line each, in their order.
pub proof fn law_paths(targets: &Vec<Target>, r: String)
    requires
        call_ensures(logs::list_paths, (targets,), r),
    ensures
        r@ == path_lines(targets@),
{
    lemma_paths(targets@);
}

/// The paths of logs, a line each.
pub open spec fn path_lines(targets: Seq<Target>) -> Seq<char>
    decreases targets.len(),
{
    if targets.len() == 0 {
        Seq::empty()
    } else {
        path_lines(targets.drop_last()) + targets.last().path@ + seq!['\n']
    }
}

/// The paths of logs are theirs.
proof fn lemma_paths(targets: Seq<Target>)
    ensures
        logs::paths_text(logs::target_views(targets)) == path_lines(targets),
    decreases targets.len(),
{
    reveal_strlit("\n");
    assert("\n"@ == seq!['\n']);
    let v = logs::target_views(targets);
    if targets.len() > 0 {
        lemma_paths(targets.drop_last());
        assert(v.drop_last() == logs::target_views(targets.drop_last()));
        assert(v.last() == targets.last()@);
    }
}

/// No label is longer than the longest, and one is as long.
pub proof fn law_label_width(targets: &Vec<Target>, r: usize)
    requires
        call_ensures(logs::label_width, (targets,), r),
    ensures
        forall|i: int| 0 <= i < targets@.len() ==> (#[trigger] targets@[i]).label@.len() <= r,
        targets@.len() > 0 ==> exists|i: int|
            0 <= i < targets@.len() && (#[trigger] targets@[i]).label@.len() == r,
        targets@.len() == 0 ==> r == 0,
{
    lemma_widest(targets@);
}

/// No label is longer than the longest, and one is as long.
proof fn lemma_widest(targets: Seq<Target>)
    ensures
        forall|i: int|
            0 <= i < targets.len() ==> (#[trigger] targets[i]).label@.len() <= logs::widest(
                logs::target_views(targets),
            ),
        targets.len() > 0 ==> exists|i: int|
            0 <= i < targets.len() && (#[trigger] targets[i]).label@.len() == logs::widest(
                logs::target_views(targets),
            ),
    decreases targets.len(),
{
    let v = logs::target_views(targets);
    if targets.len() > 0 {
        let before = targets.drop_last();
        lemma_widest(before);
        assert(v.drop_last() == logs::target_views(before));
        assert(v.last() == targets.last()@);
        let w = logs::widest(v);
        assert forall|i: int| 0 <= i < targets.len() implies (#[trigger] targets[i]).label@.len() <= w by {
            if i < before.len() {
                assert(before[i] == targets[i]);
            }
        }
        if before.len() == 0 {
            assert(v.drop_last().len() == 0);
        }
        if targets.last().label@.len() == w {
            assert(targets[targets.len() - 1].label@.len() == w);
        } else {
            assert(before.len() > 0);
            let i = choose|i: int|
                0 <= i < before.len() && (#[trigger] before[i]).label@.len() == logs::widest(
                    logs::target_views(before),
                );
            assert(targets[i].label@.len() == w);
        }
    }
}

/// The size of a file is in bytes below a KiB, and else in whole KiB as sizes are shown.
pub proof fn law_human_bytes(b: u64, r: String, s: String)
    requires
        call_ensures(logtext::human_bytes, (b,), r),
        call_ensures(fmt::size, ((b / 1024) as u64,), s),
    ensures
        b < 1024 ==> r@ == digits::decimal(b as nat) + " B"@,
        b >= 1024 ==> r@ == s@,
{
}

// ---------------------------------------------------------------------------
// searching
// ---------------------------------------------------------------------------

/// What a search shows: behind the label, a match with its number between colons, a line near one
/// with its number between hyphens; and two hyphens where lines are left out.
pub proof fn law_found_line(n: int, line: Seq<char>, t: Target, q: Query)
    requires
        !q.pal.on,
    ensures
        ({
            let label = fmt::padded(t.label@, q.label_w as nat);
            &&& search::shown_text(ShownView::Match(n, line), t, q) == label + (":"@ + digits::decimal(
                n as nat,
            ) + ": "@) + line + "\n"@
            &&& search::shown_text(ShownView::Near(n, line), t, q) == label + ("-"@ + digits::decimal(
                n as nat,
            ) + "- "@) + line + "\n"@
            &&& search::shown_text(ShownView::Gap, t, q) == "--"@ + "\n"@
        }),
{
}

/// The line below the results: how many lines match, in how many of how many logs, and how many
/// logs could not be read where there are some.
pub proof fn law_summary(t: &Tally, pal: Pal, r: String)
    requires
        call_ensures(search::summary, (t, pal), r),
        !pal.on,
    ensures
        ({
            let lines = if t.total == 1 { " matching line"@ + ""@ } else { " matching line"@ + "s"@ };
            let l = " "@ + digits::decimal(t.total as nat) + lines + " in "@ + digits::decimal(
                t.files_hit as nat,
            ) + " of "@ + digits::decimal(t.scanned as nat) + " logs"@;
            &&& t.unreadable == 0 ==> r@ =~= l + "\n"@
            &&& t.unreadable > 0 ==> r@ =~= l + " · "@ + digits::decimal(t.unreadable as nat)
                + " unreadable/missing"@ + "\n"@
        }),
{
}

/// Going to a job shows what was kept of its logs, behind its id and its name; going to all shows
/// nothing that was kept; and a job without logs is said to have none.
pub proof fn law_switch(
    to: Option<usize>,
    jobs: &Vec<&Job>,
    targets: &Vec<Target>,
    rings: &mut Vec<Vec<String>>,
    sc: &Screen,
    r: String,
)
    requires
        call_ensures(follow::switch, (to, jobs, targets, rings, sc), r),
        to matches Some(j) ==> j < jobs@.len(),
        old(rings)@.len() == targets@.len(),
        !sc.pal.on,
    ensures
        ({
            let none = forall|i: int| 0 <= i < targets@.len() ==> Some((#[trigger] targets@[i]).jidx) != to;
            &&& to is None ==> r@ == " "@ + ("── "@ + "all logs"@ + " ──"@) + "\n"@
            &&& to matches Some(j) ==> {
                let head = " "@ + ("── "@ + (jobs@[j as int].short_id@ + " "@ + jobs@[j as int].name@)
                    + " ──"@) + "\n"@;
                &&& none ==> r@ == head + " "@ + "(no log files for this job)"@ + "\n"@
                &&& !none ==> r@ == head + follow::rings_text(
                    *sc,
                    targets@,
                    old(rings)@,
                    j,
                    targets@.len(),
                )
            }
            &&& forall|i: int|
                0 <= i < targets@.len() && Some((#[trigger] targets@[i]).jidx) == to
                    ==> final(rings)@[i]@.len() == 0
            &&& forall|i: int|
                0 <= i < targets@.len() && Some((#[trigger] targets@[i]).jidx) != to
                    ==> final(rings)@[i]@ == old(rings)@[i]@
        }),
{
}

} // verus!

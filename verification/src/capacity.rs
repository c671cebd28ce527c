//! The view of the cluster's capacity.

use crate::cluster::{Cluster, Resv};
use crate::reals::{Fill, Share};
use crate::view::Viewport;
use crate::digits;
use crate::fmt;
use crate::paint;
use crate::plain;
use crate::view;
use crate::wrap;
use vstd::prelude::*;

verus! {

/// The width of the bars.
pub const W_GAUGE: usize = 20;

/// A share that is in use, and how far its bar is filled.
pub struct Gauge {
    pub share: Share,
    pub fill: Fill,
}

/// The shares of the cluster that are in use.
pub struct Gauges {
    pub gpus: Gauge,
    pub cpus: Gauge,
    pub nodes: Gauge,
}

/// What a gauge shows.
pub enum Resource {
    Gpus,
    Cpus,
    Nodes,
}

// ---------------------------------------------------------------------------
// numbers
// ---------------------------------------------------------------------------

/// How much of a resource is in use, and how much there is.
pub open spec fn usage(c: Cluster, what: Resource) -> (int, int) {
    match what {
        Resource::Gpus => (above(c.gpus_total as int, c.gpus_free as int), c.gpus_total as int),
        Resource::Cpus => (above(c.cpus_total as int, c.cpus_free as int), c.cpus_total as int),
        Resource::Nodes => (c.nodes_busy as int, above(c.pool as int, c.offline as int)),
    }
}

/// What `a` has over `b`.
pub open spec fn above(a: int, b: int) -> int {
    if a > b {
        a - b
    } else {
        0
    }
}

/// How much of a resource is in use, and how much there is.
pub fn in_use(c: &Cluster, what: &Resource) -> (r: (u64, u64))
    ensures
        (r.0 as int, r.1 as int) == usage(*c, *what),
{
    match what {
        Resource::Gpus => (c.gpus_total.saturating_sub(c.gpus_free), c.gpus_total),
        Resource::Cpus => (c.cpus_total.saturating_sub(c.cpus_free), c.cpus_total),
        Resource::Nodes => (c.nodes_busy as u64, c.usable() as u64),
    }
}

/// How many nodes a user could start on now: the idle ones, up to the user's limit.
pub open spec fn startable(c: Cluster) -> int {
    match c.limit_user_nodes {
        Some(cap) => fmt::least(c.nodes_idle as int, cap as int),
        None => c.nodes_idle as int,
    }
}

/// How many nodes a user could start on now.
pub fn fits_now(c: &Cluster) -> (r: u64)
    ensures
        r == startable(*c),
{
    let idle: u64 = c.nodes_idle as u64;
    match c.limit_user_nodes {
        Some(cap) => if idle < cap {
            idle
        } else {
            cap
        },
        None => idle,
    }
}

/// What fits now is idle, and within the user's limit; and all that is idle and within the
/// limit fits.
pub proof fn law_fits_now(c: Cluster, n: int)
    ensures
        n <= startable(c) <==> n <= c.nodes_idle && (c.limit_user_nodes matches Some(cap)
            ==> n <= cap),
{
}

// ---------------------------------------------------------------------------
// lines
// ---------------------------------------------------------------------------

/// A number with thousands separators.
pub open spec fn counted(n: int) -> Seq<char> {
    fmt::grouped(digits::decimal(n as nat))
}

/// The start of a line with a bar.
pub open spec fn gauge_text(v: Viewport, label: Seq<char>, g: Gauge) -> Seq<char> {
    " "@ + paint::dimmed(v.color, fmt::padded(label, 5)) + " "@ + view::bar_cell_text(
        v,
        g.share.value,
        g.fill,
        W_GAUGE as nat,
    ) + " "@ + paint::painted(v.color, view::bar_code(g.share.value), fmt::right_aligned(g.share.percent@ + "%"@, 4))
        + " "@
}

/// The start of a line with a bar.
fn gauge(view: &Viewport, label: &str, g: &Gauge) -> (r: String)
    ensures
        r@ == gauge_text(*view, label@, *g),
{
    let mut s = " ".to_owned();
    s.append(view.dim(fmt::pad(label, 5).as_str()).as_str());
    s.append(" ");
    s.append(view.bar_cell(Some((&g.share.value, &g.fill)), W_GAUGE).as_str());
    s.append(" ");
    let mut pct = g.share.percent.clone();
    pct.append("%");
    s.append(view.c(view.bar_color(&g.share.value), fmt::rpad(pct.as_str(), 4).as_str()).as_str());
    s.append(" ");
    s
}

/// The start of a line with a label.
pub open spec fn labelled(v: Viewport, label: Seq<char>) -> Seq<char> {
    " "@ + paint::dimmed(v.color, fmt::padded(label, 11)) + " "@
}

/// The start of a line with a label.
fn labels(view: &Viewport, label: &str) -> (r: String)
    ensures
        r@ == labelled(*view, label@),
{
    let mut s = " ".to_owned();
    s.append(view.dim(fmt::pad(label, 11).as_str()).as_str());
    s.append(" ");
    s
}

/// The title and the nodes that count.
pub open spec fn heading_text(c: Cluster, v: Viewport) -> Seq<char> {
    " "@ + paint::painted(v.color, "1"@, "ABCI-Q "@ + c.server@) + view::sep_text(v) + paint::painted(
        v.color,
        "36"@,
        "cluster"@,
    ) + view::sep_text(v) + paint::dimmed(v.color, fmt::datetime_text(v.now as int, v.tz as int)) + "\n "@ + counted(
        c.pool as int,
    ) + " nodes reachable by "@ + c.queue@ + view::sep_text(v) + counted(c.offline as int)
        + " offline/down excluded\n"@
}

/// The title and the nodes that count.
fn heading(c: &Cluster, view: &Viewport) -> (r: String)
    ensures
        r@ == heading_text(*c, *view),
{
    let mut title = "ABCI-Q ".to_owned();
    title.append(c.server.as_str());
    let mut s = " ".to_owned();
    s.append(view.c("1", title.as_str()).as_str());
    s.append(view.sep().as_str());
    s.append(view.c("36", "cluster").as_str());
    s.append(view.sep().as_str());
    s.append(view.dim(fmt::short_datetime(view.now, view.tz).as_str()).as_str());
    s.append("\n ");
    s.append(fmt::thousands(c.pool as u64).as_str());
    s.append(" nodes reachable by ");
    s.append(c.queue.as_str());
    s.append(view.sep().as_str());
    s.append(fmt::thousands(c.offline as u64).as_str());
    s.append(" offline/down excluded\n");
    s
}

/// What is free.
pub open spec fn gauges_text(c: Cluster, g: Gauges, v: Viewport) -> Seq<char> {
    gauge_text(v, "GPU"@, g.gpus) + counted(c.gpus_free as int) + " of "@ + counted(
        c.gpus_total as int,
    ) + " free\n"@ + gauge_text(v, "CPU"@, g.cpus) + counted(c.cpus_free as int) + " of "@
        + counted(c.cpus_total as int) + " cores free\n"@ + gauge_text(v, "NODE"@, g.nodes)
        + counted(c.nodes_idle as int) + " idle"@ + view::sep_text(v) + counted(c.nodes_busy as int)
        + " in use\n"@
}

/// What is free.
fn show_gauges(c: &Cluster, g: &Gauges, view: &Viewport) -> (r: String)
    ensures
        r@ == gauges_text(*c, *g, *view),
{
    let mut s = gauge(view, "GPU", &g.gpus);
    s.append(fmt::thousands(c.gpus_free).as_str());
    s.append(" of ");
    s.append(fmt::thousands(c.gpus_total).as_str());
    s.append(" free\n");
    s.append(gauge(view, "CPU", &g.cpus).as_str());
    s.append(fmt::thousands(c.cpus_free).as_str());
    s.append(" of ");
    s.append(fmt::thousands(c.cpus_total).as_str());
    s.append(" cores free\n");
    s.append(gauge(view, "NODE", &g.nodes).as_str());
    s.append(fmt::thousands(c.nodes_idle as u64).as_str());
    s.append(" idle");
    s.append(view.sep().as_str());
    s.append(fmt::thousands(c.nodes_busy as u64).as_str());
    s.append(" in use\n");
    s
}

/// What would start now.
pub open spec fn fits_text(c: Cluster, v: Viewport) -> Seq<char> {
    let l0 = labelled(v, "fits now"@) + "rt_QF="@ + counted(startable(c)) + " ("@ + counted(
        c.nodes_idle as int,
    ) + " idle"@;
    let l1 = match c.limit_user_nodes {
        Some(cap) => l0 + ", per-user cap "@ + counted(cap as int),
        None => l0,
    };
    l1 + ")"@ + view::sep_text(v) + "rt_QG "@ + counted(c.gpus_free as int) + " GPUs"@ + view::sep_text(v)
        + "rt_QC "@ + counted(c.cpus_free as int) + " cores\n"@
}

/// What would start now.
fn show_fits(c: &Cluster, view: &Viewport) -> (r: String)
    ensures
        r@ == fits_text(*c, *view),
{
    let mut s = labels(view, "fits now");
    s.append("rt_QF=");
    s.append(fmt::thousands(fits_now(c)).as_str());
    s.append(" (");
    s.append(fmt::thousands(c.nodes_idle as u64).as_str());
    s.append(" idle");
    match c.limit_user_nodes {
        Some(cap) => {
            s.append(", per-user cap ");
            s.append(fmt::thousands(cap).as_str());
        },
        None => {},
    }
    s.append(")");
    s.append(view.sep().as_str());
    s.append("rt_QG ");
    s.append(fmt::thousands(c.gpus_free).as_str());
    s.append(" GPUs");
    s.append(view.sep().as_str());
    s.append("rt_QC ");
    s.append(fmt::thousands(c.cpus_free).as_str());
    s.append(" cores\n");
    s
}

/// The limits that the queue sets; nothing where it sets none.
pub open spec fn limits_text(c: Cluster, v: Viewport) -> Seq<char> {
    if c.limit_user_nodes is None && c.limit_cluster_nodect is None {
        Seq::empty()
    } else {
        let l0 = labelled(v, "limits"@);
        let l1 = match c.limit_user_nodes {
            Some(n) => l0 + counted(n as int) + " rt_QF nodes running per user"@,
            None => l0,
        };
        let l2 = if c.limit_user_nodes is Some && c.limit_cluster_nodect is Some {
            l1 + view::sep_text(v)
        } else {
            l1
        };
        let l3 = match c.limit_cluster_nodect {
            Some(n) => l2 + counted(n as int) + " nodes running cluster-wide"@,
            None => l2,
        };
        l3 + "\n"@
    }
}

/// The limits that the queue sets; nothing where it sets none.
fn show_limits(c: &Cluster, view: &Viewport) -> (r: String)
    ensures
        r@ == limits_text(*c, *view),
{
    if c.limit_user_nodes.is_none() && c.limit_cluster_nodect.is_none() {
        return String::new();
    }
    let mut s = labels(view, "limits");
    match c.limit_user_nodes {
        Some(n) => {
            s.append(fmt::thousands(n).as_str());
            s.append(" rt_QF nodes running per user");
        },
        None => {},
    }
    if c.limit_user_nodes.is_some() && c.limit_cluster_nodect.is_some() {
        s.append(view.sep().as_str());
    }
    match c.limit_cluster_nodect {
        Some(n) => {
            s.append(fmt::thousands(n).as_str());
            s.append(" nodes running cluster-wide");
        },
        None => {},
    }
    s.append("\n");
    s
}

/// The jobs of all users.
pub open spec fn jobs_text(c: Cluster, v: Viewport) -> Seq<char> {
    labelled(v, "jobs"@) + counted(c.running as int) + " running"@ + view::sep_text(v) + counted(
        c.queued as int,
    ) + " queued"@ + view::sep_text(v) + counted(c.held as int) + " held\n"@
}

/// The jobs of all users.
fn show_jobs(c: &Cluster, view: &Viewport) -> (r: String)
    ensures
        r@ == jobs_text(*c, *view),
{
    let mut s = labels(view, "jobs");
    s.append(fmt::thousands(c.running).as_str());
    s.append(" running");
    s.append(view.sep().as_str());
    s.append(fmt::thousands(c.queued).as_str());
    s.append(" queued");
    s.append(view.sep().as_str());
    s.append(fmt::thousands(c.held).as_str());
    s.append(" held\n");
    s
}

/// The arrow between two times.
pub open spec fn arrow_sign(ascii: bool) -> Seq<char> {
    if ascii {
        " -> "@
    } else {
        " → "@
    }
}

/// From when to when a reservation lasts. The end has a date where it is on another day, and
/// is left out where it is not behind the start.
pub open spec fn span_text(w: Resv, v: Viewport) -> Seq<char> {
    let start = fmt::datetime_text(w.start as int, v.tz as int);
    if w.end <= w.start {
        start
    } else if fmt::local_day(w.start as int, v.tz as int) == fmt::local_day(w.end as int, v.tz as int) {
        start + arrow_sign(v.ascii) + fmt::clock_text(w.end as int, v.tz as int)
    } else {
        start + arrow_sign(v.ascii) + fmt::datetime_text(w.end as int, v.tz as int)
    }
}

/// From when to when a reservation lasts.
fn span(w: &Resv, view: &Viewport) -> (r: String)
    ensures
        r@ == span_text(*w, *view),
{
    let mut s = fmt::short_datetime(w.start, view.tz);
    if w.end > w.start {
        s.append(
            if view.ascii {
                " -> "
            } else {
                " → "
            },
        );
        if fmt::same_day(w.start, w.end, view.tz) {
            s.append(fmt::clock(w.end, view.tz).as_str());
        } else {
            s.append(fmt::short_datetime(w.end, view.tz).as_str());
        }
    }
    s
}

/// The next reservation; nothing where there is none.
pub open spec fn window_text(c: Cluster, v: Viewport) -> Seq<char> {
    match c.next_resv {
        Some(w) => labelled(v, "next window"@) + span_text(w, v) + view::sep_text(v) + w.name@ + view::sep_text(
            v,
        ) + counted(w.nodect as int) + " nodes"@ + view::sep_text(v) + "in "@ + fmt::until_text(
            wrap::signed_word(w.start - v.now),
        ) + "\n"@,
        None => Seq::empty(),
    }
}

/// The next reservation; nothing where there is none.
fn show_window(c: &Cluster, view: &Viewport) -> (r: String)
    ensures
        r@ == window_text(*c, *view),
{
    match &c.next_resv {
        Some(w) => {
            let mut s = labels(view, "next window");
            s.append(span(w, view).as_str());
            s.append(view.sep().as_str());
            s.append(w.name.as_str());
            s.append(view.sep().as_str());
            s.append(fmt::thousands(w.nodect).as_str());
            s.append(" nodes");
            s.append(view.sep().as_str());
            s.append("in ");
            s.append(fmt::until(wrap::low_signed_word(w.start as i128 - view.now as i128)).as_str());
            s.append("\n");
            s
        },
        None => String::new(),
    }
}

/// The capacity of the cluster.
pub open spec fn cluster_text(c: Cluster, g: Gauges, v: Viewport) -> Seq<char> {
    heading_text(c, v) + "\n"@ + gauges_text(c, g, v) + "\n"@ + fits_text(c, v) + limits_text(c, v)
        + jobs_text(c, v) + window_text(c, v)
}

/// The capacity of the cluster.
pub fn show_cluster(c: &Cluster, gauges: &Gauges, view: &Viewport) -> (r: String)
    ensures
        r@ == cluster_text(*c, *gauges, *view),
{
    let mut s = heading(c, view);
    s.append("\n");
    s.append(show_gauges(c, gauges, view).as_str());
    s.append("\n");
    s.append(show_fits(c, view).as_str());
    s.append(show_limits(c, view).as_str());
    s.append(show_jobs(c, view).as_str());
    s.append(show_window(c, view).as_str());
    s
}

/// Are the texts of the cluster plain that are shown of it?
pub open spec fn cluster_plain(c: Cluster) -> bool {
    &&& plain::is_plain(c.server@)
    &&& plain::is_plain(c.queue@)
    &&& c.next_resv matches Some(w) ==> plain::is_plain(w.name@)
}

/// Are the notations of the gauges plain?
pub open spec fn gauges_plain(g: Gauges) -> bool {
    &&& plain::share_plain(g.gpus.share)
    &&& plain::share_plain(g.cpus.share)
    &&& plain::share_plain(g.nodes.share)
}

/// Without colours, the title and the bars are plain.
proof fn lemma_top_plain(c: Cluster, g: Gauges, v: Viewport)
    requires
        !v.color,
        cluster_plain(c),
        gauges_plain(g),
    ensures
        plain::is_plain(heading_text(c, v)),
        plain::is_plain(gauges_text(c, g, v)),
{
    broadcast use plain::group_plain;

    assert(plain::is_plain(" "@)) by {
        reveal_strlit(" ");
    }
    assert(plain::is_plain("ABCI-Q "@)) by {
        reveal_strlit("ABCI-Q ");
    }
    assert(plain::is_plain("cluster"@)) by {
        reveal_strlit("cluster");
    }
    assert(plain::is_plain("\n "@)) by {
        reveal_strlit("\n ");
    }
    assert(plain::is_plain(" nodes reachable by "@)) by {
        reveal_strlit(" nodes reachable by ");
    }
    assert(plain::is_plain(" offline/down excluded\n"@)) by {
        reveal_strlit(" offline/down excluded\n");
    }
    assert(plain::is_plain("%"@)) by {
        reveal_strlit("%");
    }
    assert(plain::is_plain("GPU"@)) by {
        reveal_strlit("GPU");
    }
    assert(plain::is_plain("CPU"@)) by {
        reveal_strlit("CPU");
    }
    assert(plain::is_plain("NODE"@)) by {
        reveal_strlit("NODE");
    }
    assert(plain::is_plain(" of "@)) by {
        reveal_strlit(" of ");
    }
    assert(plain::is_plain(" free\n"@)) by {
        reveal_strlit(" free\n");
    }
    assert(plain::is_plain(" cores free\n"@)) by {
        reveal_strlit(" cores free\n");
    }
    assert(plain::is_plain(" idle"@)) by {
        reveal_strlit(" idle");
    }
    assert(plain::is_plain(" in use\n"@)) by {
        reveal_strlit(" in use\n");
    }
}

/// Without colours, the lines on jobs and limits are plain.
proof fn lemma_limits_plain(c: Cluster, v: Viewport)
    requires
        !v.color,
    ensures
        plain::is_plain(fits_text(c, v)),
        plain::is_plain(limits_text(c, v)),
        plain::is_plain(jobs_text(c, v)),
{
    broadcast use plain::group_plain;

    assert(plain::is_plain(" "@)) by {
        reveal_strlit(" ");
    }
    assert(plain::is_plain("fits now"@)) by {
        reveal_strlit("fits now");
    }
    assert(plain::is_plain("rt_QF="@)) by {
        reveal_strlit("rt_QF=");
    }
    assert(plain::is_plain(" ("@)) by {
        reveal_strlit(" (");
    }
    assert(plain::is_plain(" idle"@)) by {
        reveal_strlit(" idle");
    }
    assert(plain::is_plain(", per-user cap "@)) by {
        reveal_strlit(", per-user cap ");
    }
    assert(plain::is_plain(")"@)) by {
        reveal_strlit(")");
    }
    assert(plain::is_plain("rt_QG "@)) by {
        reveal_strlit("rt_QG ");
    }
    assert(plain::is_plain(" GPUs"@)) by {
        reveal_strlit(" GPUs");
    }
    assert(plain::is_plain("rt_QC "@)) by {
        reveal_strlit("rt_QC ");
    }
    assert(plain::is_plain(" cores\n"@)) by {
        reveal_strlit(" cores\n");
    }
    assert(plain::is_plain("limits"@)) by {
        reveal_strlit("limits");
    }
    assert(plain::is_plain(" rt_QF nodes running per user"@)) by {
        reveal_strlit(" rt_QF nodes running per user");
    }
    assert(plain::is_plain(" nodes running cluster-wide"@)) by {
        reveal_strlit(" nodes running cluster-wide");
    }
    assert(plain::is_plain("jobs"@)) by {
        reveal_strlit("jobs");
    }
    assert(plain::is_plain(" running"@)) by {
        reveal_strlit(" running");
    }
    assert(plain::is_plain(" queued"@)) by {
        reveal_strlit(" queued");
    }
    assert(plain::is_plain(" held\n"@)) by {
        reveal_strlit(" held\n");
    }
    assert(plain::is_plain("\n"@)) by {
        reveal_strlit("\n");
    }
}

/// Without colours, the line of the next reservation is plain.
proof fn lemma_window_plain(c: Cluster, v: Viewport)
    requires
        !v.color,
        cluster_plain(c),
    ensures
        plain::is_plain(window_text(c, v)),
{
    broadcast use plain::group_plain;

    reveal_strlit(" ");
    reveal_strlit("next window");
    reveal_strlit(" -> ");
    reveal_strlit(" → ");
    reveal_strlit(" nodes");
    reveal_strlit("in ");
    reveal_strlit("\n");
}

/// Without colours, the capacity of the cluster holds no control sequence of the terminal,
/// unless it is in the texts that are shown.
pub proof fn law_no_colour(c: Cluster, g: Gauges, v: Viewport)
    requires
        !v.color,
        cluster_plain(c),
        gauges_plain(g),
    ensures
        plain::is_plain(cluster_text(c, g, v)),
{
    lemma_top_plain(c, g, v);
    lemma_limits_plain(c, v);
    lemma_window_plain(c, v);
    assert(plain::is_plain("\n"@)) by {
        reveal_strlit("\n");
    }
    let l0 = heading_text(c, v);
    let l1 = l0 + "\n"@;
    let l2 = l1 + gauges_text(c, g, v);
    let l3 = l2 + "\n"@;
    let l4 = l3 + fits_text(c, v);
    let l5 = l4 + limits_text(c, v);
    let l6 = l5 + jobs_text(c, v);
    plain::lemma_concat(l0, "\n"@);
    plain::lemma_concat(l1, gauges_text(c, g, v));
    plain::lemma_concat(l2, "\n"@);
    plain::lemma_concat(l3, fits_text(c, v));
    plain::lemma_concat(l4, limits_text(c, v));
    plain::lemma_concat(l5, jobs_text(c, v));
    plain::lemma_concat(l6, window_text(c, v));
}

} // verus!

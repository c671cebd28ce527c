//! The table of the jobs.

use crate::pbs::Job;
use crate::view::{Entry, Viewport};
use crate::digits;
use crate::fmt;
use crate::groups;
use crate::paint;
use crate::pbs;
use crate::text;
use crate::view;
use vstd::prelude::*;

verus! {

// ---------------------------------------------------------------------------
// columns
// ---------------------------------------------------------------------------

/// Which optional columns fit at the current terminal width.
pub struct Cols {
    pub gpu: bool,
    pub bar: bool,
    pub time: bool,
    pub group: bool,
    pub points: bool,
    pub node: bool,
}

pub const W_ID: usize = 8;

pub const W_ST: usize = 2;

pub const W_RES: usize = 9;

pub const W_GPU: usize = 4;

pub const W_BAR: usize = 14;

pub const W_CARD_BAR: usize = 24;

pub const W_BALANCE: usize = 12;

pub const W_PCT: usize = 5;

pub const W_TIME: usize = 14;

pub const W_GROUP: usize = 10;

pub const W_PTS: usize = 12;

pub const W_NODE: usize = 9;

pub const MIN_NAME: usize = 14;

/// A column of width `w` with the space behind it, where it is shown.
pub open spec fn taken(shown: bool, w: int) -> int {
    if shown {
        w + 1
    } else {
        0
    }
}

/// The width of all but the name: the leading space, and the columns, each with a space
/// behind it.
pub open spec fn fixed_width(c: Cols) -> int {
    1 + (W_ID + 1) + (W_ST + 1) + (W_RES + 1) + (W_PCT + 1) + taken(c.gpu, W_GPU as int) + taken(
        c.bar,
        W_BAR + 2,
    ) + taken(c.time, W_TIME as int) + taken(c.group, W_GROUP as int) + taken(c.points, W_PTS as int) + taken(c.node, W_NODE as int)
}

/// The columns once the first `n` of those that can be left out are left out: the node, the
/// points, the GPUs, the group, the bar, the time. The group is a column where it differs
/// between the jobs.
pub open spec fn without_first(n: int, grouped: bool) -> Cols {
    Cols {
        node: n < 1,
        points: n < 2,
        gpu: n < 3,
        group: grouped && n < 4,
        bar: n < 5,
        time: n < 6,
    }
}

/// The number of columns to leave out so that the name has room, from `n` on.
pub open spec fn left_out(width: int, grouped: bool, n: int) -> int
    decreases 6 - n,
{
    if n >= 6 || fixed_width(without_first(n, grouped)) + MIN_NAME <= width {
        n
    } else {
        left_out(width, grouped, n + 1)
    }
}

/// The columns that fit `width`.
pub open spec fn cols_for(width: int, grouped: bool) -> Cols {
    without_first(left_out(width, grouped, 0), grouped)
}

/// The width of the name column.
pub open spec fn name_width(c: Cols, width: int) -> int {
    if width - fixed_width(c) > MIN_NAME {
        width - fixed_width(c)
    } else {
        MIN_NAME as int
    }
}

impl Cols {
    /// The width of all but the name.
    pub fn fixed(&self) -> (r: usize)
        ensures
            r == fixed_width(*self),
            r <= 200,
    {
        // Every column carries one trailing space.
        let mut w: usize = (W_ID + 1) + (W_ST + 1) + (W_RES + 1) + (W_PCT + 1);
        if self.gpu {
            w += W_GPU + 1;
        }
        if self.bar {
            w += W_BAR + 2 + 1;
        }
        if self.time {
            w += W_TIME + 1;
        }
        if self.group {
            w += W_GROUP + 1;
        }
        if self.points {
            w += W_PTS + 1;
        }
        if self.node {
            w += W_NODE + 1;
        }
        w + 1
    }
}

/// The columns that fit `width`, and the width of the name column.
pub fn fit(width: usize, grouped: bool) -> (r: (Cols, usize))
    ensures
        r.0 == cols_for(width as int, grouped),
        r.1 == name_width(r.0, width as int),
{
    let mut cols = Cols {
        gpu: true,
        bar: true,
        time: true,
        group: grouped,
        points: true,
        node: true,
    };
    // Drop columns least-first until the name column can breathe.
    let mut step: usize = 0;
    while step < 6 && cols.fixed() + MIN_NAME > width
        invariant
            step <= 6,
            cols == without_first(step as int, grouped),
            left_out(width as int, grouped, step as int) == left_out(width as int, grouped, 0),
        decreases 6 - step,
    {
        if step == 0 {
            cols.node = false;
        } else if step == 1 {
            cols.points = false;
        } else if step == 2 {
            cols.gpu = false;
        } else if step == 3 {
            cols.group = false;
        } else if step == 4 {
            cols.bar = false;
        } else {
            cols.time = false;
        }
        step += 1;
    }
    let room: usize = width.saturating_sub(cols.fixed());
    let name: usize = if room > MIN_NAME {
        room
    } else {
        MIN_NAME
    };
    (cols, name)
}

/// The columns that are shown leave the name room where the terminal is wide enough for
/// the narrowest table; and no column is left out without need.
pub proof fn law_fit(width: int, grouped: bool)
    ensures
        ({
            let n = left_out(width, grouped, 0);
            let c = cols_for(width, grouped);
            &&& 0 <= n <= 6
            &&& width >= fixed_width(without_first(6, grouped)) + MIN_NAME ==> fixed_width(c)
                + name_width(c, width) == width
            &&& n > 0 ==> fixed_width(without_first(n - 1, grouped)) + MIN_NAME > width
        }),
{
    reveal_with_fuel(left_out, 7);
}

/// Where the jobs share their group, the space of its column goes to the name.
pub proof fn law_shared_group_gives_room(width: int)
    ensures
        !cols_for(width, false).group,
        width >= fixed_width(without_first(0, true)) + MIN_NAME ==> name_width(
            cols_for(width, false),
            width,
        ) == name_width(cols_for(width, true), width) + W_GROUP + 1,
{
    reveal_with_fuel(left_out, 7);
}

// ---------------------------------------------------------------------------
// the table
// ---------------------------------------------------------------------------

/// `s` shortened and filled up to `width` characters.
pub open spec fn cell(s: Seq<char>, width: nat) -> Seq<char> {
    fmt::padded(fmt::ellipsized(s, width), width)
}

/// `s` shortened and filled up to `width` characters.
pub(crate) fn fit_cell(s: &str, width: usize) -> (r: String)
    ensures
        r@ == cell(s@, width as nat),
{
    fmt::pad(fmt::ellipsize(s, width).as_str(), width)
}

/// The line above the columns.
pub open spec fn table_header_text(c: Cols, name_w: nat, v: Viewport) -> Seq<char> {
    let l0 = " "@ + fmt::padded("ID"@, W_ID as nat) + " "@ + fmt::padded(""@, W_ST as nat) + " "@ + fmt::padded(
        "NAME"@,
        name_w,
    ) + " "@ + fmt::padded("TYPE"@, W_RES as nat) + " "@;
    let l1 = if c.gpu {
        l0 + fmt::right_aligned("GPU"@, W_GPU as nat) + " "@
    } else {
        l0
    };
    let l2 = if c.bar {
        l1 + fmt::padded("WALLTIME"@, (W_BAR + 2) as nat) + " "@
    } else {
        l1
    };
    let l3 = l2 + fmt::right_aligned("%"@, W_PCT as nat) + " "@;
    let l4 = if c.time {
        l3 + fmt::padded("USED/REQ"@, W_TIME as nat) + " "@
    } else {
        l3
    };
    let l5 = if c.group {
        l4 + fmt::padded("GROUP"@, W_GROUP as nat) + " "@
    } else {
        l4
    };
    let l6 = if c.points {
        l5 + fmt::padded("POINTS"@, W_PTS as nat) + " "@
    } else {
        l5
    };
    let l7 = if c.node {
        l6 + fmt::padded("NODE"@, W_NODE as nat) + " "@
    } else {
        l6
    };
    paint::dimmed(v.color, text::trimmed_end(l7)) + "\n"@
}

/// The line above the columns.
pub fn table_header(cols: &Cols, name_w: usize, view: &Viewport) -> (r: String)
    ensures
        r@ == table_header_text(*cols, name_w as nat, *view),
{
    let mut line = " ".to_owned();
    line.append(fmt::pad("ID", W_ID).as_str());
    line.append(" ");
    line.append(fmt::pad("", W_ST).as_str());
    line.append(" ");
    line.append(fmt::pad("NAME", name_w).as_str());
    line.append(" ");
    line.append(fmt::pad("TYPE", W_RES).as_str());
    line.append(" ");
    if cols.gpu {
        line.append(fmt::rpad("GPU", W_GPU).as_str());
        line.append(" ");
    }
    if cols.bar {
        line.append(fmt::pad("WALLTIME", W_BAR + 2).as_str());
        line.append(" ");
    }
    line.append(fmt::rpad("%", W_PCT).as_str());
    line.append(" ");
    if cols.time {
        line.append(fmt::pad("USED/REQ", W_TIME).as_str());
        line.append(" ");
    }
    if cols.group {
        line.append(fmt::pad("GROUP", W_GROUP).as_str());
        line.append(" ");
    }
    if cols.points {
        line.append(fmt::pad("POINTS", W_PTS).as_str());
        line.append(" ");
    }
    if cols.node {
        line.append(fmt::pad("NODE", W_NODE).as_str());
        line.append(" ");
    }
    let mut out = view.dim(text::trim_end(line.as_str()).as_str());
    out.append("\n");
    out
}

/// The GPU count, or a hyphen where there is none.
pub open spec fn gpu_text(j: Job) -> Seq<char> {
    if j.ngpus > 0 {
        digits::decimal(j.ngpus as nat)
    } else {
        "-"@
    }
}

/// The walltime column: the bar; or else the state, and the time spent waiting.
pub open spec fn walltime_cell(e: Entry, v: Viewport) -> Seq<char> {
    let label = "  "@ + pbs::state_label(e.job.state);
    if e.job.frac_spec() is Some {
        view::bar_cell_text(v, e.share.value, e.bar, W_BAR as nat)
    } else {
        paint::dimmed(
            v.color,
            cell(
                match pbs::waited(e.job.qtime, e.job.stime, v.now) {
                    Some(w) => label + " "@ + fmt::hm_text(w as nat),
                    None => label,
                },
                (W_BAR + 2) as nat,
            ),
        )
    }
}

/// The percentage column.
pub open spec fn percent_cell(e: Entry, v: Viewport) -> Seq<char> {
    if e.job.frac_spec() is Some {
        paint::painted(
            v.color,
            view::bar_code(e.share.value),
            fmt::right_aligned(e.share.percent@ + "%"@, W_PCT as nat),
        )
    } else {
        paint::dimmed(v.color, fmt::right_aligned("-"@, W_PCT as nat))
    }
}

/// The walltime used and requested.
pub open spec fn time_text(j: Job) -> Seq<char> {
    match (j.walltime_used, j.walltime_req) {
        (Some(u), Some(r)) => fmt::hm_text(u as nat) + "/"@ + fmt::hm_text(r as nat),
        (None, Some(r)) => "-/"@ + fmt::hm_text(r as nat),
        _ => "-"@,
    }
}

/// Are the points of a job known that its walltime reserves?
pub open spec fn is_priced(j: Job, v: Viewport) -> bool {
    j.rate_spec(v.rates@) is Some && j.walltime_req is Some
}

/// The points spent and reserved.
pub open spec fn points_pair(e: Entry, v: Viewport) -> Seq<char> {
    if !is_priced(*e.job, v) {
        "-"@
    } else if e.job.walltime_used is Some {
        fmt::points_text(e.spent) + "/"@ + fmt::points_text(e.reserved)
    } else {
        "0/"@ + fmt::points_text(e.reserved)
    }
}

/// The first node, and how many more there are.
pub open spec fn node_text(nodes: Seq<Seq<char>>) -> Seq<char> {
    if nodes.len() == 0 {
        "-"@
    } else if nodes.len() == 1 {
        nodes[0]
    } else {
        nodes[0] + "+"@ + digits::decimal((nodes.len() - 1) as nat)
    }
}

/// The group that a job is charged to, in its colour.
pub open spec fn group_cell(g: Seq<char>, groups: Seq<Seq<char>>, v: Viewport) -> Seq<char> {
    if g.len() == 0 {
        paint::dimmed(v.color, cell("-"@, W_GROUP as nat))
    } else {
        paint::painted(v.color, groups::group_code(groups, g), cell(g, W_GROUP as nat))
    }
}

/// The line of a job in the table. `groups` are the groups that the jobs of the table are
/// charged to.
pub open spec fn row_text(
    e: Entry,
    c: Cols,
    name_w: nat,
    groups: Seq<Seq<char>>,
    v: Viewport,
) -> Seq<char> {
    let j = *e.job;
    let code = pbs::state_color(j.state);
    let l0 = " "@ + paint::painted(v.color, code, cell(j.short_id@, W_ID as nat)) + " "@ + paint::painted(
        v.color,
        code,
        view::bullet_text(v.ascii) + pbs::state_code(j.state),
    ) + " "@ + cell(j.name@, name_w) + " "@ + cell(
        pbs::resource_text(pbs::opt_text(j.rtype), j.nodect),
        W_RES as nat,
    ) + " "@;
    let l1 = if c.gpu {
        l0 + fmt::right_aligned(gpu_text(j), W_GPU as nat) + " "@
    } else {
        l0
    };
    let l2 = if c.bar {
        l1 + walltime_cell(e, v) + " "@
    } else {
        l1
    };
    let l3 = l2 + percent_cell(e, v) + " "@;
    let l4 = if c.time {
        l3 + cell(time_text(j), W_TIME as nat) + " "@
    } else {
        l3
    };
    let l5 = if c.group {
        l4 + group_cell(j.group@, groups, v) + " "@
    } else {
        l4
    };
    let l6 = if c.points {
        l5 + cell(points_pair(e, v), W_PTS as nat) + " "@
    } else {
        l5
    };
    let l7 = if c.node {
        l6 + paint::dimmed(v.color, cell(node_text(text::texts(j.nodes@)), W_NODE as nat))
    } else {
        l6
    };
    text::trimmed_end(l7) + "\n"@
}

/// The walltime column.
fn show_walltime(e: &Entry, view: &Viewport) -> (r: String)
    ensures
        r@ == walltime_cell(*e, *view),
{
    let j = e.job;
    match j.walltime_frac() {
        Some(_) => view.bar_cell(Some((&e.share.value, &e.bar)), W_BAR),
        // An empty bar says nothing; the time spent waiting does.
        None => {
            let mut label = "  ".to_owned();
            label.append(j.state.label());
            match j.wait_secs(view.now) {
                Some(w) => {
                    label.append(" ");
                    label.append(fmt::hm(w).as_str());
                },
                None => {},
            }
            view.dim(fit_cell(label.as_str(), W_BAR + 2).as_str())
        },
    }
}

/// The percentage column.
fn show_percent(e: &Entry, view: &Viewport) -> (r: String)
    ensures
        r@ == percent_cell(*e, *view),
{
    match e.job.walltime_frac() {
        Some(_) => {
            let mut pct = e.share.percent.clone();
            pct.append("%");
            view.c(view.bar_color(&e.share.value), fmt::rpad(pct.as_str(), W_PCT).as_str())
        },
        None => view.dim(fmt::rpad("-", W_PCT).as_str()),
    }
}

/// The walltime used and requested.
pub(crate) fn show_time(j: &Job) -> (r: String)
    ensures
        r@ == time_text(*j),
{
    match (j.walltime_used, j.walltime_req) {
        (Some(u), Some(r)) => {
            let mut s = fmt::hm(u);
            s.append("/");
            s.append(fmt::hm(r).as_str());
            s
        },
        (None, Some(r)) => {
            let mut s = "-/".to_owned();
            s.append(fmt::hm(r).as_str());
            s
        },
        _ => "-".to_owned(),
    }
}

/// The points spent and reserved.
pub(crate) fn show_points(e: &Entry, view: &Viewport) -> (r: String)
    ensures
        r@ == points_pair(*e, *view),
{
    match (e.job.points_spent(view.rates), e.job.points_reserved(view.rates)) {
        (Some(_), Some(_)) => {
            let mut s = fmt::points(&e.spent);
            s.append("/");
            s.append(fmt::points(&e.reserved).as_str());
            s
        },
        (None, Some(_)) => {
            let mut s = "0/".to_owned();
            s.append(fmt::points(&e.reserved).as_str());
            s
        },
        _ => "-".to_owned(),
    }
}

/// The first node, and how many more there are.
pub(crate) fn show_nodes(nodes: &Vec<String>) -> (r: String)
    ensures
        r@ == node_text(text::texts(nodes@)),
{
    if nodes.len() == 0 {
        "-".to_owned()
    } else if nodes.len() == 1 {
        nodes[0].clone()
    } else {
        let mut s = nodes[0].clone();
        s.append("+");
        s.append(digits::show((nodes.len() - 1) as u64).as_str());
        s
    }
}

/// The group that a job is charged to, in its colour.
fn show_group(g: &str, groups: &Vec<String>, view: &Viewport) -> (r: String)
    ensures
        r@ == group_cell(g@, text::texts(groups@), *view),
{
    if g.is_empty() {
        view.dim(fit_cell("-", W_GROUP).as_str())
    } else {
        view.c(groups::group_color(groups, g), fit_cell(g, W_GROUP).as_str())
    }
}

/// The line of a job in the table. `groups` are the groups that the jobs of the table are
/// charged to.
pub fn row(e: &Entry, cols: &Cols, name_w: usize, groups: &Vec<String>, view: &Viewport) -> (r:
    String)
    ensures
        r@ == row_text(*e, *cols, name_w as nat, text::texts(groups@), *view),
{
    let j = e.job;
    let mut line = " ".to_owned();
    line.append(view.c(j.state.color(), fit_cell(j.short_id.as_str(), W_ID).as_str()).as_str());
    line.append(" ");
    let mut state = view.bullet().to_owned();
    state.append(j.state.code());
    line.append(view.c(j.state.color(), state.as_str()).as_str());
    line.append(" ");
    line.append(fit_cell(j.name.as_str(), name_w).as_str());
    line.append(" ");
    line.append(fit_cell(j.resource_label().as_str(), W_RES).as_str());
    line.append(" ");
    if cols.gpu {
        let g = if j.ngpus > 0 {
            digits::show(j.ngpus)
        } else {
            "-".to_owned()
        };
        line.append(fmt::rpad(g.as_str(), W_GPU).as_str());
        line.append(" ");
    }
    if cols.bar {
        line.append(show_walltime(e, view).as_str());
        line.append(" ");
    }
    line.append(show_percent(e, view).as_str());
    line.append(" ");
    if cols.time {
        line.append(fit_cell(show_time(j).as_str(), W_TIME).as_str());
        line.append(" ");
    }
    if cols.group {
        line.append(show_group(j.group.as_str(), groups, view).as_str());
        line.append(" ");
    }
    if cols.points {
        line.append(fit_cell(show_points(e, view).as_str(), W_PTS).as_str());
        line.append(" ");
    }
    if cols.node {
        line.append(view.dim(fit_cell(show_nodes(&j.nodes).as_str(), W_NODE).as_str()).as_str());
    }
    let mut out = text::trim_end(line.as_str());
    out.append("\n");
    out
}

} // verus!

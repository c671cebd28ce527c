//! One card per job.

use crate::pbs::{Job, State};
use crate::view::{Entry, Viewport};
use crate::digits;
use crate::fmt;
use crate::paint;
use crate::pbs;
use crate::table;
use crate::text;
use crate::view;
use vstd::prelude::*;

verus! {

/// `a - b`, or 0 where `b` is greater.
pub open spec fn room_beside(a: int, b: int) -> nat {
    if a > b {
        (a - b) as nat
    } else {
        0
    }
}

/// The first words of a line of a card.
pub open spec fn titled(v: Viewport, title: Seq<char>) -> Seq<char> {
    "   "@ + paint::dimmed(v.color, title) + " "@
}

/// The first words of a line of a card.
pub(crate) fn start_line(view: &Viewport, title: &str) -> (r: String)
    ensures
        r@ == titled(*view, title@),
{
    let mut s = "   ".to_owned();
    s.append(view.dim(title).as_str());
    s.append(" ");
    s
}

/// State, id, name, and behind them the state in words, the queue and the service.
pub open spec fn card_title(j: Job, v: Viewport) -> Seq<char> {
    let place = "   "@ + pbs::state_label(j.state) + " · "@ + j.queue@;
    " "@ + paint::painted(v.color, pbs::state_color(j.state), view::bullet_text(v.ascii)) + " "@ + paint::painted(
        v.color,
        "1"@,
        j.id@,
    ) + "  "@ + paint::painted(v.color, "1"@, fmt::ellipsized(j.name@, room_beside(v.width as int, 38)))
        + paint::dimmed(
        v.color,
        if j.service@.len() == 0 {
            place
        } else {
            place + " · "@ + j.service@
        },
    ) + "\n"@
}

/// State, id, name, and behind them the state in words, the queue and the service.
fn show_title(j: &Job, view: &Viewport) -> (r: String)
    ensures
        r@ == card_title(*j, *view),
{
    let mut out = " ".to_owned();
    out.append(view.c(j.state.color(), view.bullet()).as_str());
    out.append(" ");
    out.append(view.c("1", j.id.as_str()).as_str());
    out.append("  ");
    out.append(
        view.c("1", fmt::ellipsize(j.name.as_str(), view.width.saturating_sub(38)).as_str()).as_str(),
    );
    let mut place = "   ".to_owned();
    place.append(j.state.label());
    place.append(" · ");
    place.append(j.queue.as_str());
    if !j.service.as_str().is_empty() {
        place.append(" · ");
        place.append(j.service.as_str());
    }
    out.append(view.dim(place.as_str()).as_str());
    out.append("\n");
    out
}

/// What a job has asked for and where it runs.
pub open spec fn resource_parts(j: Job) -> Seq<Seq<char>> {
    let p0 = seq![pbs::resource_text(pbs::opt_text(j.rtype), j.nodect)];
    let p1 = if j.ncpus > 0 {
        p0.push(digits::decimal(j.ncpus as nat) + " CPU"@)
    } else {
        p0
    };
    let p2 = if j.ngpus > 0 {
        p1.push(digits::decimal(j.ngpus as nat) + " GPU"@)
    } else {
        p1
    };
    let p3 = if j.mem_req@.len() > 0 {
        p2.push(j.mem_req@)
    } else {
        p2
    };
    let p4 = if j.nodes@.len() > 0 {
        p3.push(text::joined(text::texts(j.nodes@), ","@))
    } else {
        p3
    };
    if j.group@.len() > 0 {
        p4.push("charged "@ + j.group@)
    } else {
        p4
    }
}

/// The line of the resources.
pub open spec fn resource_line(j: Job, v: Viewport) -> Seq<char> {
    "   "@ + text::joined(resource_parts(j), view::sep_text(v)) + "\n"@
}

/// The line of the resources.
fn show_resources(j: &Job, view: &Viewport) -> (r: String)
    ensures
        r@ == resource_line(*j, *view),
{
    let mut spec: Vec<String> = Vec::new();
    view::push_part(&mut spec, j.resource_label());
    assert(text::texts(spec@) == seq![pbs::resource_text(pbs::opt_text(j.rtype), j.nodect)]);
    if j.ncpus > 0 {
        let mut t = digits::show(j.ncpus);
        t.append(" CPU");
        view::push_part(&mut spec, t);
    }
    if j.ngpus > 0 {
        let mut t = digits::show(j.ngpus);
        t.append(" GPU");
        view::push_part(&mut spec, t);
    }
    if !j.mem_req.as_str().is_empty() {
        view::push_part(&mut spec, j.mem_req.clone());
    }
    if j.nodes.len() > 0 {
        view::push_part(&mut spec, text::join(&j.nodes, ","));
    }
    if !j.group.as_str().is_empty() {
        let mut t = "charged ".to_owned();
        t.append(j.group.as_str());
        view::push_part(&mut spec, t);
    }
    let mut out = "   ".to_owned();
    out.append(text::join(&spec, view.sep().as_str()).as_str());
    out.append("\n");
    out
}

/// The line of the walltime: how much of it is used; or else how long the job has waited.
pub open spec fn walltime_line(e: Entry, v: Viewport) -> Seq<char> {
    let j = *e.job;
    match j.frac_spec() {
        Some(f) => {
            let l0 = titled(v, "walltime"@) + view::bar_cell_text(
                v,
                e.share.value,
                e.card_bar,
                table::W_CARD_BAR as nat,
            ) + " "@ + paint::painted(v.color, view::bar_code(e.share.value), e.share.percent_tenth@ + "%"@)
                + "  "@ + fmt::hms_text(f.0 as nat) + " used of "@ + fmt::hms_text(f.1 as nat);
            let l1 = if j.state == State::Running {
                l0 + view::sep_text(v) + fmt::hms_text(room_beside(f.1 as int, f.0 as int)) + " left"@
            } else {
                l0
            };
            l1 + "\n"@
        },
        None => match pbs::waited(j.qtime, j.stime, v.now) {
            Some(w) => {
                let l0 = titled(v, "walltime"@) + pbs::state_label(j.state) + " "@ + fmt::hms_text(w as nat)
                    + view::sep_text(v);
                let l1 = match j.walltime_req {
                    Some(r) => l0 + fmt::hms_text(r as nat) + " requested"@,
                    None => l0 + "no limit"@,
                };
                l1 + "\n"@
            },
            None => Seq::empty(),
        },
    }
}

/// The line of the walltime.
fn show_walltime_line(e: &Entry, view: &Viewport) -> (r: String)
    ensures
        r@ == walltime_line(*e, *view),
{
    let j = e.job;
    match j.walltime_frac() {
        Some(f) => {
            let mut s = start_line(view, "walltime");
            s.append(view.bar_cell(Some((&e.share.value, &e.card_bar)), table::W_CARD_BAR).as_str());
            s.append(" ");
            let mut pct = e.share.percent_tenth.clone();
            pct.append("%");
            s.append(view.c(view.bar_color(&e.share.value), pct.as_str()).as_str());
            s.append("  ");
            s.append(fmt::hms(f.0).as_str());
            s.append(" used of ");
            s.append(fmt::hms(f.1).as_str());
            if j.state == State::Running {
                let left: u64 = match j.walltime_left() {
                    Some(l) => l,
                    None => 0,
                };
                s.append(view.sep().as_str());
                s.append(fmt::hms(left).as_str());
                s.append(" left");
            }
            s.append("\n");
            s
        },
        None => match j.wait_secs(view.now) {
            Some(w) => {
                let mut s = start_line(view, "walltime");
                s.append(j.state.label());
                s.append(" ");
                s.append(fmt::hms(w).as_str());
                s.append(view.sep().as_str());
                match j.walltime_req {
                    Some(r) => {
                        s.append(fmt::hms(r).as_str());
                        s.append(" requested");
                    },
                    None => {
                        s.append("no limit");
                    },
                }
                s.append("\n");
                s
            },
            None => String::new(),
        },
    }
}

/// The scheduler's comment, for a job that does not run.
pub open spec fn comment_line(j: Job, v: Viewport) -> Seq<char> {
    match j.comment {
        Some(c) => if j.state == State::Running {
            Seq::empty()
        } else {
            titled(v, "why     "@) + fmt::ellipsized(c@, room_beside(v.width as int, 13)) + "\n"@
        },
        None => Seq::empty(),
    }
}

/// The scheduler's comment, for a job that does not run.
fn show_comment(j: &Job, view: &Viewport) -> (r: String)
    ensures
        r@ == comment_line(*j, *view),
{
    // For anything not running, PBS's comment is the scheduler explaining
    // itself ("Not Running: Insufficient amount of resource ...").
    if j.state != State::Running {
        match &j.comment {
            Some(c) => {
                let mut s = start_line(view, "why     ");
                s.append(fmt::ellipsize(c.as_str(), view.width.saturating_sub(13)).as_str());
                s.append("\n");
                return s;
            },
            None => {},
        }
    }
    String::new()
}

/// What a job uses: its load and its memory.
pub open spec fn usage_parts(e: Entry) -> Seq<Seq<char>> {
    let p0 = match (e.job.cpupercent, e.load) {
        (Some(_), Some(l)) => seq![
            "cpu "@ + l.percent@ + "% ("@ + l.cores@ + " of "@ + digits::decimal(e.job.ncpus as nat)
                + " cores)"@,
        ],
        _ => Seq::empty(),
    };
    match e.job.mem_used_kb {
        Some(m) => p0.push("mem "@ + fmt::size_text(m as int)),
        None => p0,
    }
}

/// The line of what a job uses, where something is known of it.
pub open spec fn usage_line(e: Entry, v: Viewport) -> Seq<char> {
    if usage_parts(e).len() == 0 {
        Seq::empty()
    } else {
        titled(v, "usage   "@) + text::joined(usage_parts(e), view::sep_text(v)) + "\n"@
    }
}

/// The line of what a job uses.
fn show_usage(e: &Entry, view: &Viewport) -> (r: String)
    ensures
        r@ == usage_line(*e, *view),
{
    let mut usage: Vec<String> = Vec::new();
    assert(text::texts(usage@) == Seq::<Seq<char>>::empty());
    match (&e.job.cpupercent, &e.load) {
        (Some(_), Some(l)) => {
            let mut t = "cpu ".to_owned();
            t.append(l.percent.as_str());
            t.append("% (");
            t.append(l.cores.as_str());
            t.append(" of ");
            t.append(digits::show(e.job.ncpus).as_str());
            t.append(" cores)");
            let ghost said = t@;
            view::push_part(&mut usage, t);
            assert(text::texts(usage@) == seq![said]);
        },
        _ => {},
    }
    match e.job.mem_used_kb {
        Some(m) => {
            let mut t = "mem ".to_owned();
            t.append(fmt::size(m).as_str());
            view::push_part(&mut usage, t);
        },
        None => {},
    }
    assert(text::texts(usage@) == usage_parts(*e));
    if usage.len() == 0 {
        return String::new();
    }
    let mut s = start_line(view, "usage   ");
    s.append(text::join(&usage, view.sep().as_str()).as_str());
    s.append("\n");
    s
}

/// The line of the points, where both those spent and those reserved are known.
pub open spec fn points_line(e: Entry, v: Viewport) -> Seq<char> {
    if table::is_priced(*e.job, v) && e.job.walltime_used is Some {
        titled(v, "points  "@) + fmt::points_text(e.spent) + " spent of "@ + fmt::points_text(e.reserved)
            + " reserved"@ + view::sep_text(v) + view::trimmed_figure(e.rate) + " pt/h"@ + "\n"@
    } else {
        Seq::empty()
    }
}

/// The line of the points.
fn show_points_line(e: &Entry, view: &Viewport) -> (r: String)
    ensures
        r@ == points_line(*e, *view),
{
    match (e.job.points_spent(view.rates), e.job.points_reserved(view.rates)) {
        (Some(_), Some(_)) => {
            let mut s = start_line(view, "points  ");
            s.append(fmt::points(&e.spent).as_str());
            s.append(" spent of ");
            s.append(fmt::points(&e.reserved).as_str());
            s.append(" reserved");
            s.append(view.sep().as_str());
            s.append(view::trim_num(&e.rate).as_str());
            s.append(" pt/h");
            s.append("\n");
            s
        },
        _ => String::new(),
    }
}

/// When a job started and was submitted; or else when it was queued and may start.
pub open spec fn dates_line(j: Job, v: Viewport) -> Seq<char> {
    match (j.stime, j.qtime) {
        (Some(st), q) => {
            let l0 = titled(v, "started "@) + fmt::datetime_text(st as int, v.tz as int);
            let l1 = match q {
                Some(t) => l0 + view::sep_text(v) + "submitted "@ + fmt::datetime_text(t as int, v.tz as int),
                None => l0,
            };
            l1 + "\n"@
        },
        (None, Some(t)) => {
            let l0 = titled(v, "queued  "@) + fmt::datetime_text(t as int, v.tz as int);
            let l1 = match j.est_start {
                Some(e) => l0 + view::sep_text(v) + "estimated start "@ + e@,
                None => l0,
            };
            l1 + "\n"@
        },
        (None, None) => Seq::empty(),
    }
}

/// When a job started and was submitted; or else when it was queued and may start.
fn show_dates(j: &Job, view: &Viewport) -> (r: String)
    ensures
        r@ == dates_line(*j, *view),
{
    match (j.stime, j.qtime) {
        (Some(st), q) => {
            let mut s = start_line(view, "started ");
            s.append(fmt::short_datetime(st, view.tz).as_str());
            match q {
                Some(t) => {
                    s.append(view.sep().as_str());
                    s.append("submitted ");
                    s.append(fmt::short_datetime(t, view.tz).as_str());
                },
                None => {},
            }
            s.append("\n");
            s
        },
        (None, Some(t)) => {
            let mut s = start_line(view, "queued  ");
            s.append(fmt::short_datetime(t, view.tz).as_str());
            match &j.est_start {
                Some(e) => {
                    s.append(view.sep().as_str());
                    s.append("estimated start ");
                    s.append(e.as_str());
                },
                None => {},
            }
            s.append("\n");
            s
        },
        (None, None) => String::new(),
    }
}

/// The exit status, where there is one.
pub open spec fn exit_line(j: Job, v: Viewport) -> Seq<char> {
    match j.exit_status {
        Some(code) => titled(v, "exit    "@) + paint::painted(
            v.color,
            if code == 0 {
                "32"@
            } else {
                "31"@
            },
            digits::signed_decimal(code as int),
        ) + "\n"@,
        None => Seq::empty(),
    }
}

/// The exit status, where there is one.
fn show_exit(j: &Job, view: &Viewport) -> (r: String)
    ensures
        r@ == exit_line(*j, *view),
{
    match j.exit_status {
        Some(code) => {
            let style = if code == 0 {
                "32"
            } else {
                "31"
            };
            let mut s = start_line(view, "exit    ");
            s.append(view.c(style, digits::show_signed(code).as_str()).as_str());
            s.append("\n");
            s
        },
        None => String::new(),
    }
}

/// A line that shows a text, where there is one.
pub open spec fn text_line(t: Option<Seq<char>>, title: Seq<char>, v: Viewport) -> Seq<char> {
    match t {
        Some(s) => titled(v, title) + s + "\n"@,
        None => Seq::empty(),
    }
}

/// A line that shows a text, where there is one.
fn show_text(t: &Option<String>, title: &str, view: &Viewport) -> (r: String)
    ensures
        r@ == text_line(pbs::opt_text(*t), title@, *view),
{
    match t {
        Some(p) => {
            let mut s = start_line(view, title);
            s.append(p.as_str());
            s.append("\n");
            s
        },
        None => String::new(),
    }
}

/// The card of a job.
pub open spec fn card_text(e: Entry, v: Viewport) -> Seq<char> {
    let j = *e.job;
    card_title(j, v) + resource_line(j, v) + walltime_line(e, v) + comment_line(j, v) + usage_line(
        e,
        v,
    ) + points_line(e, v) + dates_line(j, v) + exit_line(j, v) + text_line(
        pbs::opt_text(j.log_path),
        "log     "@,
        v,
    ) + text_line(pbs::opt_text(j.submit_args), "submit  "@, v)
}

/// The card of a job.
pub fn card(e: &Entry, view: &Viewport) -> (r: String)
    ensures
        r@ == card_text(*e, *view),
{
    let j = e.job;
    let mut out = show_title(j, view);
    out.append(show_resources(j, view).as_str());
    out.append(show_walltime_line(e, view).as_str());
    out.append(show_comment(j, view).as_str());
    out.append(show_usage(e, view).as_str());
    out.append(show_points_line(e, view).as_str());
    out.append(show_dates(j, view).as_str());
    out.append(show_exit(j, view).as_str());
    out.append(show_text(&j.log_path, "log     ", view).as_str());
    out.append(show_text(&j.submit_args, "submit  ", view).as_str());
    out
}

} // verus!

//! Laws of colours: what stands in which colour, and what marks stand for it where there is only
//! ASCII.

use crate::cluster::Cluster;
use crate::follow::Screen;
use crate::footer::{Balance, Totals};
use crate::logs::{FileInfo, Target, Widths};
use crate::pager::BookView;
use crate::pbs::Job;
use crate::reals::{Figure, Fill, Real};
use crate::search::{Query, ShownView};
use crate::table::Cols;
use crate::view::{Entry, Viewport};
use crate::capacity;
use crate::card;
use crate::digits;
use crate::find;
use crate::fmt;
use crate::follow;
use crate::footer;
use crate::groups;
use crate::listing_laws;
use crate::logs;
use crate::logtext;
use crate::pager;
use crate::paint;
use crate::pbs;
use crate::render;
use crate::search;
use crate::table;
use crate::text;
use crate::view;
use vstd::prelude::*;

verus! {

/// `s` in the colour `code`, where colours are on: between the colour and its end.
pub open spec fn in_code(on: bool, code: Seq<char>, s: Seq<char>) -> Seq<char> {
    if on && s.len() > 0 {
        seq!['\x1b', '['] + code + seq!['m'] + s + seq!['\x1b', '[', '0', 'm']
    } else {
        s
    }
}

/// What is painted stands in its colour.
proof fn lemma_painted(on: bool, code: Seq<char>, s: Seq<char>)
    ensures
        paint::painted(on, code, s) == in_code(on, code, s),
{
    reveal_strlit("\x1b[");
    reveal_strlit("m");
    reveal_strlit("\x1b[0m");
    assert("\x1b["@ == seq!['\x1b', '[']);
    assert("m"@ == seq!['m']);
    assert("\x1b[0m"@ == seq!['\x1b', '[', '0', 'm']);
}

// ---------------------------------------------------------------------------
// marks
// ---------------------------------------------------------------------------

/// The marks of a listing: ASCII ones where nothing else may be shown.
pub proof fn law_marks(v: &Viewport, bullet: &'static str, warn: &'static str, sep: String)
    requires
        call_ensures(Viewport::bullet, (v,), bullet),
        call_ensures(Viewport::warn_sign, (v,), warn),
        call_ensures(Viewport::sep, (v,), sep),
    ensures
        v.ascii ==> bullet@ == seq!['*'] && warn@ == seq!['!'] && sep@ == in_code(
            v.color,
            seq!['2'],
            seq![' ', '|', ' '],
        ),
        !v.ascii ==> bullet@ == seq!['●'] && warn@ == seq!['⚠'] && sep@ == in_code(
            v.color,
            seq!['2'],
            seq![' ', '·', ' '],
        ),
{
    reveal_strlit("*");
    reveal_strlit("●");
    reveal_strlit("!");
    reveal_strlit("⚠");
    reveal_strlit(" | ");
    reveal_strlit(" · ");
    reveal_strlit("2");
    assert("*"@ == seq!['*'] && "●"@ == seq!['●'] && "!"@ == seq!['!'] && "⚠"@ == seq!['⚠']);
    assert(" | "@ == seq![' ', '|', ' '] && " · "@ == seq![' ', '·', ' '] && "2"@ == seq!['2']);
    lemma_painted(v.color, "2"@, " | "@);
    lemma_painted(v.color, "2"@, " · "@);
}

/// A bar stands between its ends, in the colour of its share; without a share it is empty and
/// faint.
pub proof fn law_bar_cell(v: &Viewport, frac: Option<(&Real, &Fill)>, width: usize, r: String)
    requires
        call_ensures(Viewport::bar_cell, (v, frac, width), r),
        !v.color,
    ensures
        ({
            let fill = match frac {
                Some(f) => *f.1,
                None => Fill { cells: 0, eighths: 0 },
            };
            let cells = fmt::bar_text(fill, width as nat, v.ascii);
            &&& v.ascii ==> r@ == seq!['['] + cells + seq![']']
            &&& !v.ascii ==> r@ == seq!['▕'] + cells + seq!['▏']
        }),
{
    reveal_strlit("[");
    reveal_strlit("]");
    reveal_strlit("▕");
    reveal_strlit("▏");
    assert("["@ == seq!['['] && "]"@ == seq![']'] && "▕"@ == seq!['▕'] && "▏"@ == seq!['▏']);
}

// ---------------------------------------------------------------------------
// the listing
// ---------------------------------------------------------------------------

/// The header in colour: the server bold, whose jobs they are in cyan, and the time faint.
pub proof fn law_header_colours(server: Seq<char>, entries: Seq<Entry>, v: Viewport, who: Seq<char>, burn: Figure)
    ensures
        ({
            let parts = render::header_parts(server, entries, v, who, burn);
            &&& parts[0] == in_code(v.color, "1"@, "ABCI-Q "@ + server)
            &&& parts[1] == in_code(v.color, "36"@, who)
            &&& parts.last() == in_code(v.color, "2"@, fmt::datetime_text(v.now as int, v.tz as int))
        }),
{
    lemma_painted(v.color, "1"@, "ABCI-Q "@ + server);
    lemma_painted(v.color, "36"@, who);
    lemma_painted(v.color, "2"@, fmt::datetime_text(v.now as int, v.tz as int));
}

/// The count of a state in the header is in the colour of the state.
pub proof fn law_header_state_colours(entries: Seq<Entry>, k: nat)
    requires
        k < 8,
        render::jobs_in(entries, render::state_ranked(k as int)) > 0,
    ensures
        ({
            let s = render::state_ranked(k as int);
            render::state_parts(entries, true, k + 1).last() == in_code(
                true,
                pbs::state_color(s),
                digits::decimal(render::jobs_in(entries, s)) + " "@ + pbs::state_label(s),
            )
        }),
{
    let s = render::state_ranked(k as int);
    lemma_painted(
        true,
        pbs::state_color(s),
        digits::decimal(render::jobs_in(entries, s)) + " "@ + pbs::state_label(s),
    );
}

/// A row in colour: the id and the state in the colour of the state; the name and the type in
/// none.
pub proof fn law_row_colours(e: Entry, w: nat, groups: Seq<Seq<char>>, v: Viewport)
    ensures
        ({
            let j = *e.job;
            let none = Cols { gpu: false, bar: false, time: false, group: false, points: false, node: false };
            let code = pbs::state_color(j.state);
            table::row_text(e, none, w, groups, v) == text::trimmed_end(
                " "@ + in_code(v.color, code, table::cell(j.short_id@, 8)) + " "@ + in_code(
                    v.color,
                    code,
                    view::bullet_text(v.ascii) + pbs::state_code(j.state),
                ) + " "@ + table::cell(j.name@, w) + " "@ + table::cell(
                    pbs::resource_text(pbs::opt_text(j.rtype), j.nodect),
                    9,
                ) + " "@ + table::percent_cell(e, v) + " "@,
            ) + "\n"@
        }),
{
    let j = *e.job;
    let code = pbs::state_color(j.state);
    lemma_painted(v.color, code, table::cell(j.short_id@, 8));
    lemma_painted(v.color, code, view::bullet_text(v.ascii) + pbs::state_code(j.state));
}

/// The percentage is in the colour of its share, and faint where there is none; a group is in its
/// own colour, and faint where there is none.
pub proof fn law_cell_colours(e: Entry, g: Seq<char>, groups: Seq<Seq<char>>, v: Viewport)
    ensures
        listing_laws::share_known(*e.job) ==> table::percent_cell(e, v) == in_code(
            v.color,
            view::bar_code(e.share.value),
            fmt::right_aligned(e.share.percent@ + "%"@, 5),
        ),
        !listing_laws::share_known(*e.job) ==> table::percent_cell(e, v) == in_code(
            v.color,
            "2"@,
            fmt::right_aligned("-"@, 5),
        ),
        g.len() > 0 ==> table::group_cell(g, groups, v) == in_code(
            v.color,
            groups::group_code(groups, g),
            table::cell(g, 10),
        ),
        g.len() == 0 ==> table::group_cell(g, groups, v) == in_code(v.color, "2"@, table::cell("-"@, 10)),
{
    lemma_painted(
        v.color,
        view::bar_code(e.share.value),
        fmt::right_aligned(e.share.percent@ + "%"@, 5),
    );
    lemma_painted(v.color, "2"@, fmt::right_aligned("-"@, 5));
    lemma_painted(v.color, groups::group_code(groups, g), table::cell(g, 10));
    lemma_painted(v.color, "2"@, table::cell("-"@, 10));
}

/// The title of a card in colour: the mark in the colour of the state, the id and the name bold,
/// and what stands behind them faint.
pub proof fn law_card_title_colours(j: Job, v: Viewport)
    ensures
        ({
            let name = fmt::ellipsized(j.name@, if v.width > 38 { (v.width - 38) as nat } else { 0 });
            let place = "   "@ + pbs::state_label(j.state) + " · "@ + j.queue@ + (if j.service@.len() == 0 {
                Seq::empty()
            } else {
                " · "@ + j.service@
            });
            card::card_title(j, v) == " "@ + in_code(
                v.color,
                pbs::state_color(j.state),
                view::bullet_text(v.ascii),
            ) + " "@ + in_code(v.color, "1"@, j.id@) + "  "@ + in_code(v.color, "1"@, name) + in_code(
                v.color,
                "2"@,
                place,
            ) + "\n"@
        }),
{
    let name = fmt::ellipsized(j.name@, if v.width > 38 { (v.width - 38) as nat } else { 0 });
    let p0 = "   "@ + pbs::state_label(j.state) + " · "@ + j.queue@;
    let place = p0 + (if j.service@.len() == 0 { Seq::empty() } else { " · "@ + j.service@ });
    lemma_painted(v.color, pbs::state_color(j.state), view::bullet_text(v.ascii));
    lemma_painted(v.color, "1"@, j.id@);
    lemma_painted(v.color, "1"@, name);
    lemma_painted(v.color, "2"@, place);
    if j.service@.len() == 0 {
        assert(place == p0);
    } else {
        assert(place == p0 + " · "@ + j.service@);
    }
}

// ---------------------------------------------------------------------------
// under the jobs
// ---------------------------------------------------------------------------

/// The warning of a job that is about to be killed: its id and its name, the share of the walltime
/// that is used, and how much is left; behind a red mark, the id bold.
pub proof fn law_warning(e: Entry, v: Viewport, u: u64, q: u64)
    requires
        e.job.walltime_used == Some(u),
        e.job.walltime_req == Some(q),
    ensures
        ({
            let left: nat = if u < q { (q - u) as nat } else { 0 };
            footer::tight_line(e, v) == " "@ + in_code(v.color, "31"@, view::warn_text(v.ascii)) + " "@
                + in_code(v.color, "1"@, e.job.short_id@) + " "@ + fmt::ellipsized(e.job.name@, 28)
                + " at "@ + e.share.percent@ + "% of walltime — "@ + fmt::hms_text(left) + " left\n"@
        }),
{
    lemma_painted(v.color, "31"@, view::warn_text(v.ascii));
    lemma_painted(v.color, "1"@, e.job.short_id@);
}

/// Each warning has a line, in order.
pub proof fn law_warning_lines(entries: Seq<Entry>, list: Seq<int>, i: int, v: Viewport)
    ensures
        footer::tight_lines(entries, Seq::empty(), v).len() == 0,
        footer::tight_lines(entries, list.push(i), v) == footer::tight_lines(entries, list, v)
            + footer::tight_line(entries[i], v),
{
    assert(list.push(i).drop_last() == list);
}

/// The sums are faint.
pub proof fn law_totals_colour(t: Totals, v: Viewport)
    requires
        t.reserved.value.above(Real { bits: 0 }),
    ensures
        footer::totals_line(t, v) == "\n "@ + in_code(
            v.color,
            "2"@,
            fmt::points_text(t.spent) + " pt spent so far · "@ + fmt::points_text(t.reserved)
                + " pt reserved by these jobs"@,
        ) + "\n"@,
{
    lemma_painted(
        v.color,
        "2"@,
        fmt::points_text(t.spent) + " pt spent so far · "@ + fmt::points_text(t.reserved)
            + " pt reserved by these jobs"@,
    );
}

/// A balance in colour: the group in its own, the percentage in that of its share, and the warning
/// red.
pub proof fn law_balance_colours(b: Balance, groups: Seq<Seq<char>>, v: Viewport)
    ensures
        ({
            let l = " "@ + in_code(
                v.color,
                groups::group_code(groups, b.group@),
                fmt::padded(b.group@, 12),
            ) + " "@ + view::bar_cell_text(v, b.share.value, b.bar, 12) + " "@ + in_code(
                v.color,
                view::bar_code(b.share.value),
                fmt::right_aligned(b.share.percent@ + "%"@, 4),
            ) + " "@ + fmt::commas_text(b.left) + " left of "@ + fmt::commas_text(b.granted);
            let over = "  "@ + view::warn_text(v.ascii) + " "@ + fmt::commas_text(b.committed)
                + " pt reserved exceeds the balance"@;
            &&& b.committed.value.above(b.left.value) ==> footer::balance_line(b, groups, v) == l + in_code(
                v.color,
                "31"@,
                over,
            ) + "\n"@
            &&& !b.committed.value.above(b.left.value) ==> footer::balance_line(b, groups, v) == l
                + "\n"@
        }),
{
    lemma_painted(v.color, groups::group_code(groups, b.group@), fmt::padded(b.group@, 12));
    lemma_painted(
        v.color,
        view::bar_code(b.share.value),
        fmt::right_aligned(b.share.percent@ + "%"@, 4),
    );
    lemma_painted(
        v.color,
        "31"@,
        "  "@ + view::warn_text(v.ascii) + " "@ + fmt::commas_text(b.committed)
            + " pt reserved exceeds the balance"@,
    );
}

// ---------------------------------------------------------------------------
// logs
// ---------------------------------------------------------------------------

/// A line of a log in colour: its label in that of its job, a status line faint, and a pattern
/// marked.
pub proof fn law_line_colours(
    sc: &Screen,
    t: &Target,
    line: &str,
    sys: bool,
    grep: Option<(&str, bool)>,
    r: String,
)
    requires
        call_ensures(follow::emit, (sc, t, line, sys, grep), r),
    ensures
        ({
            let body = match grep {
                Some(g) if !sys && sc.pal.on => find::marked(line@, g.0@, g.1),
                _ => if sys {
                    in_code(sc.pal.on, "2"@, line@)
                } else {
                    line@
                },
            };
            &&& sc.prefix_on ==> r@ == in_code(
                sc.pal.on,
                t.color@,
                "["@ + fmt::padded(t.label@, sc.label_w as nat) + "]"@,
            ) + " "@ + body + "\n"@
            &&& !sc.prefix_on ==> r@ == body + "\n"@
        }),
{
    lemma_painted(sc.pal.on, "2"@, line@);
    lemma_painted(
        sc.pal.on,
        t.color@,
        "["@ + fmt::padded(t.label@, sc.label_w as nat) + "]"@,
    );
}

/// What a search shows in colour: the label in that of the job, the number faint, and the pattern
/// marked in lines that match.
pub proof fn law_found_colours(n: int, line: Seq<char>, t: Target, q: Query)
    ensures
        ({
            let on = q.pal.on;
            let label = in_code(on, t.color@, fmt::padded(t.label@, q.label_w as nat));
            let d = digits::decimal(n as nat);
            let body = if on { find::marked(line, q.pat@, q.icase) } else { line };
            &&& search::shown_text(ShownView::Match(n, line), t, q) == label + in_code(
                on,
                "2"@,
                ":"@ + d + ": "@,
            ) + body + "\n"@
            &&& search::shown_text(ShownView::Near(n, line), t, q) == label + in_code(
                on,
                "2"@,
                "-"@ + d + "- "@,
            ) + line + "\n"@
            &&& search::shown_text(ShownView::Gap, t, q) == in_code(on, "2"@, "--"@) + "\n"@
        }),
{
    let on = q.pal.on;
    let d = digits::decimal(n as nat);
    lemma_painted(on, t.color@, fmt::padded(t.label@, q.label_w as nat));
    lemma_painted(on, "2"@, ":"@ + d + ": "@);
    lemma_painted(on, "2"@, "-"@ + d + "- "@);
    lemma_painted(on, "2"@, "--"@);
}

/// The line of a log in the index in colour: its label in that of the job, the state in its own,
/// and the path faint.
pub proof fn law_index_colours(mark: Seq<char>, k: nat, t: Target, f: Option<FileInfo>, w: Widths, on: bool)
    ensures
        logs::index_row(mark, k, t, f, w, on) == mark + fmt::right_aligned(
            digits::decimal(k),
            w.number_w as nat,
        ) + " "@ + in_code(on, t.color@, fmt::padded(t.label@, w.label_w as nat)) + " "@ + in_code(
            on,
            pbs::state_color(t.job.state),
            fmt::padded(pbs::state_code(t.job.state), 2),
        ) + " "@ + fmt::padded(fmt::ellipsized(t.job.name@, 20), 20) + " "@ + fmt::right_aligned(
            logs::size_cell(f),
            9,
        ) + " "@ + fmt::right_aligned(logs::age_cell(f), 7) + " "@ + in_code(
            on,
            "2"@,
            logtext::ellipsized_front(t.path@, w.path_w as int),
        ) + "\n"@,
{
    lemma_painted(on, t.color@, fmt::padded(t.label@, w.label_w as nat));
    lemma_painted(
        on,
        pbs::state_color(t.job.state),
        fmt::padded(pbs::state_code(t.job.state), 2),
    );
    lemma_painted(on, "2"@, logtext::ellipsized_front(t.path@, w.path_w as int));
}

/// The title of a page in colour: bold where it is that of all jobs, and else in the colour of its
/// job.
pub proof fn law_title_colours(b: BookView, entries: Seq<Entry>, n: nat, v: Viewport)
    requires
        0 <= b.open <= entries.len(),
    ensures
        ({
            let fresh = pager::fresh_text(b.pages[b.open].fresh as nat);
            &&& b.open == 0 ==> pager::title_line(b, entries, n, v) == in_code(
                v.color,
                "1"@,
                pager::framed(pager::all_title(entries.len(), n), fresh, v.width as nat),
            )
            &&& b.open > 0 ==> pager::title_line(b, entries, n, v) == in_code(
                v.color,
                paint::hue(b.open - 1),
                pager::framed(pager::job_title(entries[b.open - 1], v), fresh, v.width as nat),
            )
        }),
{
    let fresh = pager::fresh_text(b.pages[b.open].fresh as nat);
    lemma_painted(
        v.color,
        "1"@,
        pager::framed(pager::all_title(entries.len(), n), fresh, v.width as nat),
    );
    lemma_painted(
        v.color,
        paint::hue(b.open - 1),
        pager::framed(pager::job_title(entries[b.open - 1], v), fresh, v.width as nat),
    );
}

/// The first line of the view of the cluster in colour: the server bold, what it is in cyan, and
/// the time faint.
pub proof fn law_cluster_colours(c: Cluster, v: Viewport)
    ensures
        capacity::heading_text(c, v) == " "@ + in_code(v.color, "1"@, "ABCI-Q "@ + c.server@)
            + view::sep_text(v) + in_code(v.color, "36"@, "cluster"@) + view::sep_text(v) + in_code(
            v.color,
            "2"@,
            fmt::datetime_text(v.now as int, v.tz as int),
        ) + "\n "@ + capacity::counted(c.pool as int) + " nodes reachable by "@ + c.queue@
            + view::sep_text(v) + capacity::counted(c.offline as int) + " offline/down excluded\n"@,
{
    lemma_painted(v.color, "1"@, "ABCI-Q "@ + c.server@);
    lemma_painted(v.color, "36"@, "cluster"@);
    lemma_painted(v.color, "2"@, fmt::datetime_text(v.now as int, v.tz as int));
}

/// A log has the colour of its job.
pub proof fn law_log_colours(jobs: &Vec<&Job>, r: Vec<Target>, k: int, code: &'static str)
    requires
        call_ensures(logs::build_targets, (jobs,), r),
        0 <= k < r@.len(),
        call_ensures(logs::job_color, (r@[k].jidx,), code),
    ensures
        r@[k].color@ == code@,
{
    assert(r@[k].jidx < jobs@.len());
}

} // verus!

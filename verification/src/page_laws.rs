//! Laws of screens: the pages of logs, the picker, the keys, and the marks of a pattern.

use crate::json::{Json, JsonView};
use crate::logs::{FileInfo, Target};
use crate::pager::{Book, BookView, Page, RowView};
use crate::paint::Pal;
use crate::pbs::Job;
use crate::view::{Entry, Viewport};
use crate::answer_laws;
use crate::cluster;
use crate::digits;
use crate::find;
use crate::fmt;
use crate::follow;
use crate::job_laws;
use crate::json;
use crate::log_laws;
use crate::logs;
use crate::pager;
use crate::pbs;
use crate::text;
use crate::text_laws;
use vstd::prelude::*;

verus! {

// ---------------------------------------------------------------------------
// pages
// ---------------------------------------------------------------------------

/// The screen is cleared, and shows the title of the open page, its lines, and the tabs.
pub proof fn law_screen_parts(
    b: &Book,
    entries: &Vec<Entry>,
    targets: &Vec<Target>,
    height: usize,
    v: &Viewport,
    r: String,
)
    requires
        call_ensures(pager::show_screen, (b, entries, targets, None, height, v), r),
    ensures
        r@ == "\x1b[H\x1b[J"@ + pager::title_line(b@, entries@, targets@.len(), *v) + "\n"@
            + pager::body_text(b@, targets@, None, height as nat, *v) + pager::tab_line(
            b@,
            entries@,
            *v,
        ),
{
}

/// The title is that of all jobs where their page is open, and else that of the job whose page it
/// is; with the new lines below the screen behind it.
pub proof fn law_page_title(b: BookView, entries: Seq<Entry>, n: nat, v: Viewport)
    requires
        !v.color,
        0 <= b.open <= entries.len(),
    ensures
        ({
            let fresh = pager::fresh_text(b.pages[b.open].fresh as nat);
            let all = " ● all jobs — "@ + digits::decimal(entries.len()) + (if entries.len() == 1 {
                " job"@
            } else {
                " jobs"@
            }) + " · "@ + digits::decimal(n) + (if n == 1 { " log"@ } else { " logs"@ });
            let e = entries[b.open - 1];
            let job = " ● "@ + e.job.short_id@ + " "@ + e.job.name@ + " — "@ + text::joined(
                pager::title_parts(e, v),
                " · "@,
            );
            &&& b.open == 0 ==> pager::title_line(b, entries, n, v) == pager::framed(
                all,
                fresh,
                v.width as nat,
            )
            &&& b.open > 0 ==> pager::title_line(b, entries, n, v) == pager::framed(
                job,
                fresh,
                v.width as nat,
            )
        }),
{
}

/// A page of a job without logs says so; any other shows its lines that are on the screen, and
/// blank ones up to the height.
pub proof fn law_page_body(b: BookView, targets: Seq<Target>, height: nat, v: Viewport)
    requires
        !v.color,
        b.wf(),
        height > 0,
    ensures
        ({
            let has_logs = b.open == 0 || exists|i: int|
                0 <= i < targets.len() && (#[trigger] targets[i]).jidx == (b.open - 1) as usize;
            let rows = pager::on_screen(b.pages[b.open], height as int);
            &&& !has_logs ==> pager::body_text(b, targets, None, height, v) == fmt::ellipsized(
                " (no log files for this job)"@,
                v.width as nat,
            ) + text::repeated('\n', height)
            &&& has_logs ==> pager::body_text(b, targets, None, height, v) == pager::screen_lines(
                rows,
                targets,
                b.open == 0,
                None,
                logs::widest(logs::target_views(targets)),
                v,
            ) + text::repeated('\n', (height - rows.len()) as nat)
        }),
{
}

/// Each line of a page is shown, in order; on the page of all jobs behind the label of its log.
pub proof fn law_page_lines(
    rows: Seq<RowView>,
    row: RowView,
    targets: Seq<Target>,
    label_w: nat,
    v: Viewport,
)
    requires
        !v.color,
    ensures
        ({
            let label = fmt::ellipsized(
                "["@ + fmt::padded(targets[row.target].label@, label_w) + "] "@,
                v.width as nat,
            );
            &&& pager::screen_lines(rows.push(row), targets, false, None, label_w, v)
                == pager::screen_lines(rows, targets, false, None, label_w, v) + (fmt::ellipsized(
                row.line,
                v.width as nat,
            ) + "\n"@)
            &&& pager::screen_lines(rows.push(row), targets, true, None, label_w, v)
                == pager::screen_lines(rows, targets, true, None, label_w, v) + (label
                + fmt::ellipsized(row.line, (v.width - label.len()) as nat) + "\n"@)
            &&& pager::screen_lines(Seq::empty(), targets, true, None, label_w, v).len() == 0
        }),
{
    assert(rows.push(row).drop_last() == rows);
}

/// A page shows the lines so many above the last as it is scrolled up, and as many as fit.
pub proof fn law_page_span(p: &Page, height: usize, r: (usize, usize))
    requires
        call_ensures(Page::span, (p, height), r),
        p@.wf(),
    ensures
        ({
            let n = p@.rows.len() as int;
            let shown = p@.rows.subrange(r.0 as int, r.1 as int);
            &&& n <= height ==> shown == p@.rows
            &&& n > height && p@.up <= n - height ==> shown == p@.rows.subrange(
                n - p@.up - height,
                n - p@.up,
            )
            &&& n > height && p@.up > n - height ==> shown == p@.rows.subrange(0, height as int)
        }),
{
}

/// The tabs: that of all jobs, and one for each, of which the one of the open page is marked.
pub proof fn law_tabs(b: BookView, entries: Seq<Entry>, n: nat)
    requires
        n < entries.len(),
    ensures
        b.open == 0 ==> pager::tabs(b, entries, 0) == " [a:all]"@,
        b.open != 0 ==> pager::tabs(b, entries, 0) == " a:all"@,
        pager::tabs(b, entries, n + 1) == pager::tabs(b, entries, n) + pager::tab(
            entries[n as int],
            n as int,
            b.pages[n as int + 1].marked,
            b.open == n + 1,
        ),
{
}

// ---------------------------------------------------------------------------
// the picker
// ---------------------------------------------------------------------------

/// The picker shows as many lines of the index as fit, from the first on where the cursor is on
/// one of them, and else up to that of the cursor.
pub proof fn law_picker(
    targets: &Vec<Target>,
    files: &Vec<Option<FileInfo>>,
    cursor: usize,
    width: usize,
    height: usize,
    pal: Pal,
    r: String,
)
    requires
        call_ensures(pager::show_picker, (targets, files, cursor, width, height, pal), r),
        files@.len() == targets@.len(),
        cursor < targets@.len(),
        height > 0,
        !pal.on,
    ensures
        ({
            let w = logs::index_widths(logs::target_views(targets@), width as int);
            let (from, to): (int, int) = if cursor >= height {
                (cursor - height + 1, cursor + 1)
            } else if height < targets@.len() {
                (0, height as int)
            } else {
                (0, targets@.len() as int)
            };
            r@ == "\x1b[H\x1b[J"@ + logs::index_header(w, false) + logs::index_rows(
                targets@,
                files@,
                from as nat,
                to as nat,
                Some(cursor),
                w,
                false,
            ) + fmt::ellipsized(" j/k move · Enter open · 1-9 open · f all · q quit"@, width as nat)
        }),
{
}

// ---------------------------------------------------------------------------
// keys and headings
// ---------------------------------------------------------------------------

/// The keys of the first nine jobs, a line each, numbered from 1 on; and how many more there are,
/// where there are more.
pub proof fn law_mapping(jobs: &Vec<&Job>, pal: Pal, r: String)
    requires
        call_ensures(follow::print_mapping, (jobs, pal), r),
        !pal.on,
    ensures
        jobs@.len() <= 9 ==> r@ == follow::key_lines(jobs@, jobs@.len(), false),
        jobs@.len() > 9 ==> r@ == follow::key_lines(jobs@, 9, false) + "  "@ + ("(+"@
            + digits::decimal((jobs@.len() - 9) as nat) + " more — j/k cycles through all)"@) + "\n"@,
{
}

/// The line of a key: its number, the id and the name of the job.
pub proof fn law_key_line(jobs: Seq<&Job>, n: nat)
    requires
        n < jobs.len(),
    ensures
        follow::key_lines(jobs, n + 1, false) == follow::key_lines(jobs, n, false) + ("  "@
            + digits::decimal(n + 1) + " "@ + jobs[n as int].short_id@ + " "@ + fmt::ellipsized(
            jobs[n as int].name@,
            48,
        ) + "\n"@),
        follow::key_lines(jobs, 0, false).len() == 0,
{
}

/// The line above logs that are followed: how many there are; and the keys where there are keys,
/// or else how to stop.
pub proof fn law_heading(n: usize, interactive: bool, pal: Pal, r: String)
    requires
        call_ensures(follow::heading, (n, interactive, pal), r),
        !pal.on,
    ensures
        ({
            let logs = if n == 1 { " log"@ + ""@ } else { " log"@ + "s"@ };
            let l = " "@ + "following "@ + digits::decimal(n as nat) + logs + " · "@;
            &&& interactive ==> r@ =~= l + "keys: 1-9 solo · a all · j/k cycle · l list · q quit"@
                + "\n"@
            &&& !interactive ==> r@ =~= l + "Ctrl-C to stop"@ + "\n"@
        }),
{
}

// ---------------------------------------------------------------------------
// finding and marking
// ---------------------------------------------------------------------------

/// Are two bytes the same, or the same but for the case of an ASCII letter where case does not
/// matter?
pub open spec fn alike_bytes(a: u8, b: u8, icase: bool) -> bool {
    a == b || (icase && ((0x41 <= a <= 0x5a && b == a + 32) || (0x41 <= b <= 0x5a && a == b + 32)))
}

/// Do bytes stand at `i`?
pub open spec fn bytes_at(hay: Seq<u8>, needle: Seq<u8>, icase: bool, i: int) -> bool {
    0 <= i && i + needle.len() <= hay.len() && forall|k: int|
        0 <= k < needle.len() ==> alike_bytes(hay[i + k], #[trigger] needle[k], icase)
}

/// Bytes are found where they stand first; and are not found where they stand nowhere, or are
/// none.
pub proof fn law_find_ci(hay: &[u8], needle: &[u8], icase: bool, r: Option<usize>)
    requires
        call_ensures(find::find_ci, (hay, needle, icase), r),
    ensures
        r matches Some(i) ==> needle@.len() > 0 && bytes_at(hay@, needle@, icase, i as int) && forall|
            j: int,
        |
            0 <= j < i ==> !#[trigger] bytes_at(hay@, needle@, icase, j),
        r is None && needle@.len() > 0 ==> forall|j: int| !#[trigger] bytes_at(hay@, needle@, icase, j),
        needle@.len() == 0 ==> r is None,
{
    assert forall|j: int| #[trigger] bytes_at(hay@, needle@, icase, j) == find::stands_at(
        hay@,
        needle@,
        icase,
        j,
    ) by {
        if bytes_at(hay@, needle@, icase, j) {
            assert forall|k: int| 0 <= k < needle@.len() implies find::same_byte(
                #[trigger] hay@[j + k],
                needle@[k],
                icase,
            ) by {
                assert(alike_bytes(hay@[j + k], needle@[k], icase));
            }
        }
        if find::stands_at(hay@, needle@, icase, j) {
            assert forall|k: int| 0 <= k < needle@.len() implies alike_bytes(
                hay@[j + k],
                #[trigger] needle@[k],
                icase,
            ) by {
                assert(find::same_byte(hay@[j + k], needle@[k], icase));
            }
        }
    }
}

/// Every occurrence is marked: the pattern stands in no part that is not.
pub proof fn law_all_marked(s: Seq<char>, pat: Seq<char>, icase: bool, k: int)
    requires
        0 <= k < find::parts(s, pat, icase).len(),
        !find::parts(s, pat, icase)[k].1,
    ensures
        !log_laws::stands_in_line(find::parts(s, pat, icase)[k].0, pat, icase),
    decreases s.len(),
{
    let p = find::parts(s, pat, icase);
    find::lemma_found_in(s, pat, icase);
    match find::found_in(s, pat, icase) {
        Some(i) => {
            let rest = s.skip(i + pat.len());
            let q = find::parts(rest, pat, icase);
            assert(p == seq![(s.take(i), false), (s.subrange(i, i + pat.len()), true)] + q);
            if k >= 2 {
                assert(p[k] == q[k - 2]);
                law_all_marked(rest, pat, icase, k - 2);
            } else {
                let t = s.take(i);
                if log_laws::stands_in_line(t, pat, icase) {
                    let j = choose|j: int| #[trigger] log_laws::stands_at(t, pat, icase, j);
                    assert forall|m: int| 0 <= m < pat.len() implies find::same_char(
                        #[trigger] s.skip(j)[m],
                        pat[m],
                        icase,
                    ) by {
                        assert(log_laws::alike(t[j + m], pat[m], icase));
                        log_laws::lemma_alike(t[j + m], pat[m], icase);
                    }
                    assert(find::begins_with(s.skip(j), pat, icase));
                }
            }
        },
        None => {
            assert(p == seq![(s, false)]);
            log_laws::lemma_found(s, pat, icase);
        },
    }
}

/// A line whose pattern is marked is its parts, those that are marked in their colour; and the line
/// itself where colours are off.
pub proof fn law_highlight(pal: Pal, line: &str, pat: &str, icase: bool, r: String)
    requires
        call_ensures(find::highlight, (pal, line, pat, icase), r),
    ensures
        !pal.on ==> r@ == line@,
        pal.on ==> r@ == find::in_colour(find::parts(line@, pat@, icase)),
        find::in_a_row(find::parts(line@, pat@, icase)) == line@,
{
    find::law_marked(line@, pat@, icase);
}

// ---------------------------------------------------------------------------
// what commands printed
// ---------------------------------------------------------------------------

/// What a command printed is the document that it writes; an error where it is none, or where
/// nothing was printed: then with what the command complained of, or with its name.
pub proof fn law_json_cmd(bin: &str, stdout: &[u8], stderr: &[u8], r: Result<Json, String>)
    requires
        call_ensures(cluster::json_cmd, (bin, stdout, stderr), r),
    ensures
        ({
            let out = text::utf8_lossy(stdout@);
            let err = text::utf8_lossy(stderr@);
            let empty = text_laws::blank(out);
            &&& empty && text_laws::blank(err) ==> r is Err && r->Err_0@ == bin@ + " returned nothing"@
            &&& empty && !text_laws::blank(err) ==> r is Err && r->Err_0@ == text::trimmed(err)
            &&& !empty && json::json_read(out) is Err ==> r is Err
            &&& !empty && json::json_read(out) is Ok ==> r is Ok && r->Ok_0@ == json::json_read(out)->Ok_0
        }),
{
    answer_laws::lemma_blank(text::utf8_lossy(stdout@));
    answer_laws::lemma_blank(text::utf8_lossy(stderr@));
}

/// The queue by default is the one that the first server names, or `abciq`.
pub proof fn law_default_queue(
    sv: &Json,
    r: String,
    servers: Seq<(Seq<char>, JsonView)>,
    queue: Seq<char>,
)
    requires
        call_ensures(cluster::default_queue, (sv,), r),
        job_laws::has(sv@, "Server"@, JsonView::Object(servers)),
        servers.len() > 0,
    ensures
        job_laws::has(servers[0].1, "default_queue"@, JsonView::Text(queue)) ==> r@ == queue,
        job_laws::lacks(servers[0].1, "default_queue"@) ==> r@ == "abciq"@,
{
    job_laws::law_member(sv@, "Server"@);
    job_laws::law_member(servers[0].1, "default_queue"@);
}

/// Where no server is named, the queue is `abciq`.
pub proof fn law_no_server(sv: &Json, r: String)
    requires
        call_ensures(cluster::default_queue, (sv,), r),
        job_laws::lacks(sv@, "Server"@),
    ensures
        r@ == "abciq"@,
{
    job_laws::law_member(sv@, "Server"@);
    job_laws::law_member(JsonView::Null, "default_queue"@);
}

/// The arguments that ask for the server, the nodes, a queue and the reservations.
pub proof fn law_cluster_args(
    queue: &str,
    server: Vec<String>,
    nodes: Vec<String>,
    of_queue: Vec<String>,
    rstat: Vec<String>,
)
    requires
        call_ensures(cluster::server_args, (), server),
        call_ensures(cluster::nodes_args, (), nodes),
        call_ensures(cluster::queue_args, (queue,), of_queue),
        call_ensures(cluster::rstat_args, (), rstat),
    ensures
        text::joined(text::texts(server@), " "@) == "-B"@ + " "@ + "-f"@ + " "@ + "-F"@ + " "@ + "json"@,
        text::joined(text::texts(nodes@), " "@) == "-a"@ + " "@ + "-F"@ + " "@ + "json"@,
        text::joined(text::texts(of_queue@), " "@) == "-Q"@ + " "@ + "-f"@ + " "@ + queue@ + " "@ + "-F"@
            + " "@ + "json"@,
        text::joined(text::texts(rstat@), " "@) == "-F"@,
{
    reveal_with_fuel(text::joined, 6);
    let a = text::texts(server@);
    let b = text::texts(nodes@);
    let c = text::texts(of_queue@);
    assert(a.drop_last() == seq!["-B"@, "-f"@, "-F"@]);
    assert(a.drop_last().drop_last() == seq!["-B"@, "-f"@]);
    assert(a.drop_last().drop_last().drop_last() == seq!["-B"@]);
    assert(b.drop_last() == seq!["-a"@, "-F"@]);
    assert(b.drop_last().drop_last() == seq!["-a"@]);
    assert(c.drop_last() == seq!["-Q"@, "-f"@, queue@, "-F"@]);
    assert(c.drop_last().drop_last() == seq!["-Q"@, "-f"@, queue@]);
    assert(c.drop_last().drop_last().drop_last() == seq!["-Q"@, "-f"@]);
    assert(c.drop_last().drop_last().drop_last().drop_last() == seq!["-Q"@]);
}

/// The offset that a clock printed is read without the white space round it; none where it cannot
/// be cut.
pub proof fn law_tz_offset(stdout: &[u8], r: Option<i64>, z: &str, secs: i64)
    requires
        call_ensures(pbs::tz_offset, (stdout,), r),
        call_ensures(pbs::parse_offset, (z,), secs),
        z@ == text::trimmed(text::utf8_lossy(stdout@)),
        vstd::utf8::is_ascii_chars(z@),
    ensures
        r == Some(secs),
{
    vstd::utf8::is_ascii_chars_encode_utf8(z@);
    let b = vstd::utf8::encode_utf8(z@);
    if b.len() >= 5 {
        vstd::utf8::encode_utf8_valid_utf8(z@);
        vstd::utf8::is_char_boundary_iff_not_is_continuation_byte(b, 1);
        vstd::utf8::is_char_boundary_iff_not_is_continuation_byte(b, 3);
        if b.len() == 5 {
            vstd::utf8::is_char_boundary_start_end_of_seq(b);
        } else {
            vstd::utf8::is_char_boundary_iff_not_is_continuation_byte(b, 5);
        }
    }
}

/// The width of the terminal is the one that its text says.
pub proof fn law_term_width(stdout: &[u8], r: usize, t: &str, w: usize)
    requires
        call_ensures(pbs::term_width, (stdout,), r),
        call_ensures(pbs::read_width, (t,), w),
        t@ == text::utf8_lossy(stdout@),
    ensures
        r == w,
{
}

} // verus!

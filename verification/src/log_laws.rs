//! Laws of logs: which there are, what is shown of them, and what becomes of their lines.

use crate::follow::{Ask, Route, StreamView};
use crate::job_laws::{has, spells};
use crate::json::Json;
use crate::logs::{Mode, Target, TargetView};
use crate::pbs::Job;
use crate::find;
use crate::follow;
use crate::job_laws;
use crate::logs;
use crate::logtext;
use crate::pbs;
use crate::search;
use crate::text;
use vstd::prelude::*;

verus! {

// ---------------------------------------------------------------------------
// which logs there are
// ---------------------------------------------------------------------------

/// The file that swallows what is written to it.
pub open spec fn nowhere() -> Seq<char> {
    seq!['/', 'd', 'e', 'v', '/', 'n', 'u', 'l', 'l']
}

/// Has a job a log of its output at `path`?
pub open spec fn writes_output(j: Job, path: Seq<char>) -> bool {
    j.log_path matches Some(p) && p@ == path && path != nowhere()
}

/// Has a job a log of its errors of its own at `path`?
pub open spec fn writes_errors(j: Job, path: Seq<char>) -> bool {
    &&& j.error_path matches Some(e) && e@ == path
    &&& path != nowhere()
    &&& !j.join_oe
    &&& j.log_path matches Some(p) ==> p@ != path
}

/// Is a log that of the output of the job at index `i`?
pub open spec fn is_output(t: Target, i: int, j: Job) -> bool {
    t.jidx == i && t.label@ == j.short_id@ && writes_output(j, t.path@)
}

/// Is a log that of the errors of the job at index `i`?
pub open spec fn is_errors(t: Target, i: int, j: Job) -> bool {
    t.jidx == i && t.label@ == j.short_id@ + seq!['.', 'e'] && writes_errors(j, t.path@)
}

/// The texts that name what is special.
proof fn lemma_names()
    ensures
        "/dev/null"@ == nowhere(),
        ".e"@ == seq!['.', 'e'],
{
    reveal_strlit("/dev/null");
    reveal_strlit(".e");
}

/// The logs of each job are among those of all.
proof fn lemma_all_targets(jobs: Seq<&Job>, i: int, t: TargetView)
    requires
        0 <= i < jobs.len(),
        logs::targets_of(*jobs[i], i).contains(t),
    ensures
        logs::all_targets(jobs).contains(t),
    decreases jobs.len(),
{
    let before = logs::all_targets(jobs.drop_last());
    let own = logs::targets_of(*jobs.last(), jobs.len() - 1);
    let all = logs::all_targets(jobs);
    if i == jobs.len() - 1 {
        let k = choose|k: int| 0 <= k < own.len() && own[k] == t;
        assert(all[before.len() + k] == t);
    } else {
        assert(jobs.drop_last()[i] == jobs[i]);
        lemma_all_targets(jobs.drop_last(), i, t);
        let k = choose|k: int| 0 <= k < before.len() && before[k] == t;
        assert(all[k] == t);
    }
}

/// Each of all logs is one of its job.
proof fn lemma_from_targets(jobs: Seq<&Job>, k: int)
    requires
        0 <= k < logs::all_targets(jobs).len(),
    ensures
        ({
            let t = logs::all_targets(jobs)[k];
            0 <= t.jidx < jobs.len() && logs::targets_of(*jobs[t.jidx], t.jidx).contains(t)
        }),
    decreases jobs.len(),
{
    if jobs.len() > 0 {
        let before = logs::all_targets(jobs.drop_last());
        let own = logs::targets_of(*jobs.last(), jobs.len() - 1);
        let t = logs::all_targets(jobs)[k];
        if k < before.len() {
            lemma_from_targets(jobs.drop_last(), k);
            assert(before[k] == t);
            assert(jobs.drop_last()[t.jidx] == jobs[t.jidx]);
        } else {
            assert(own[k - before.len()] == t);
            assert(jobs[jobs.len() - 1] == jobs.last());
        }
    }
}

/// The log files of jobs are their outputs, and their errors where they go to a file of their
/// own; each is listed under the id of its job, errors with `.e` behind it; and nothing else is
/// listed.
pub proof fn law_log_files(jobs: &Vec<&Job>, r: Vec<Target>)
    requires
        call_ensures(logs::build_targets, (jobs,), r),
    ensures
        forall|i: int, p: Seq<char>|
            0 <= i < jobs@.len() && #[trigger] writes_output(*jobs@[i], p) ==> exists|k: int|
                0 <= k < r@.len() && is_output(#[trigger] r@[k], i, *jobs@[i]) && r@[k].path@ == p,
        forall|i: int, p: Seq<char>|
            0 <= i < jobs@.len() && #[trigger] writes_errors(*jobs@[i], p) ==> exists|k: int|
                0 <= k < r@.len() && is_errors(#[trigger] r@[k], i, *jobs@[i]) && r@[k].path@ == p,
        forall|k: int|
            0 <= k < r@.len() ==> {
                let t = #[trigger] r@[k];
                let j = *jobs@[t.jidx as int];
                &&& t.jidx < jobs@.len() && *t.job == j
                &&& is_output(t, t.jidx as int, j) || is_errors(t, t.jidx as int, j)
            },
{
    lemma_names();
    let all = logs::all_targets(jobs@);
    assert(logs::target_views(r@).len() == r@.len());
    assert(forall|k: int| 0 <= k < r@.len() ==> all[k] == (#[trigger] r@[k])@);
    assert forall|i: int, p: Seq<char>|
        0 <= i < jobs@.len() && #[trigger] writes_output(*jobs@[i], p) implies exists|k: int|
        0 <= k < r@.len() && is_output(#[trigger] r@[k], i, *jobs@[i]) && r@[k].path@ == p by {
        let j = *jobs@[i];
        let t = TargetView { jidx: i, label: j.short_id@, path: p };
        assert(logs::targets_of(j, i)[0] == t);
        lemma_all_targets(jobs@, i, t);
        let k = choose|k: int| 0 <= k < all.len() && all[k] == t;
        assert(r@[k]@ == t);
    }
    assert forall|i: int, p: Seq<char>|
        0 <= i < jobs@.len() && #[trigger] writes_errors(*jobs@[i], p) implies exists|k: int|
        0 <= k < r@.len() && is_errors(#[trigger] r@[k], i, *jobs@[i]) && r@[k].path@ == p by {
        let j = *jobs@[i];
        let own = logs::targets_of(j, i);
        let t = TargetView { jidx: i, label: j.short_id@ + ".e"@, path: p };
        assert(own[own.len() - 1] == t);
        lemma_all_targets(jobs@, i, t);
        let k = choose|k: int| 0 <= k < all.len() && all[k] == t;
        assert(r@[k]@ == t);
    }
    assert forall|k: int| 0 <= k < r@.len() implies {
        let t = #[trigger] r@[k];
        let j = *jobs@[t.jidx as int];
        &&& t.jidx < jobs@.len() && *t.job == j
        &&& is_output(t, t.jidx as int, j) || is_errors(t, t.jidx as int, j)
    } by {
        lemma_from_targets(jobs@, k);
        let t = r@[k]@;
        let own = logs::targets_of(*jobs@[t.jidx], t.jidx);
        let m = choose|m: int| 0 <= m < own.len() && own[m] == t;
        assert(own.len() <= 2);
    }
}

/// A job that was submitted without joining its errors into its output, and writes the two to
/// different files, has two logs: one under its id, and one under its id with `.e` behind it.
pub proof fn law_separate_errors(
    id: &str,
    j: &Json,
    tz: i64,
    job: Job,
    jobs: &Vec<&Job>,
    r: Vec<Target>,
    i: int,
    out: Seq<char>,
    err: Seq<char>,
)
    requires
        call_ensures(pbs::parse_job, (id, j, tz), job),
        call_ensures(logs::build_targets, (jobs,), r),
        0 <= i < jobs@.len(),
        *jobs@[i] == job,
        spells(j@, "Output_Path"@, out),
        spells(j@, "Error_Path"@, err),
        !out.contains(':'),
        !err.contains(':'),
        out != nowhere(),
        err != nowhere(),
        out != err,
        !spells(j@, "Join_Path"@, seq!['o', 'e']),
        !spells(j@, "Join_Path"@, seq!['e', 'o']),
    ensures
        exists|k: int|
            0 <= k < r@.len() && is_output(#[trigger] r@[k], i, job) && r@[k].path@ == out,
        exists|k: int|
            0 <= k < r@.len() && is_errors(#[trigger] r@[k], i, job) && r@[k].path@ == err,
{
    job_laws::law_job_logs(id, j, tz, job);
    law_log_files(jobs, r);
    lemma_plain_path(job.log_path->0@, out);
    lemma_plain_path(job.error_path->0@, err);
    assert(writes_output(job, out));
    assert(writes_errors(job, err));
}

/// A path without a colon is the one that is named.
proof fn lemma_plain_path(p: Seq<char>, t: Seq<char>)
    requires
        job_laws::is_path(p, t),
        !t.contains(':'),
    ensures
        p == t,
{
    if p != t {
        let host = choose|host: Seq<char>|
            !host.contains(':') && t == #[trigger] job_laws::at_host(host, p);
        assert(t[host.len() as int] == ':');
    }
}

/// A job that joins its errors into its output has no log of its errors.
pub proof fn law_joined_errors(
    id: &str,
    j: &Json,
    tz: i64,
    job: Job,
    jobs: &Vec<&Job>,
    r: Vec<Target>,
    k: int,
)
    requires
        call_ensures(pbs::parse_job, (id, j, tz), job),
        call_ensures(logs::build_targets, (jobs,), r),
        0 <= k < r@.len(),
        *jobs@[r@[k].jidx as int] == job,
        spells(j@, "Join_Path"@, seq!['o', 'e']) || spells(j@, "Join_Path"@, seq!['e', 'o']),
    ensures
        is_output(r@[k], r@[k].jidx as int, job),
{
    job_laws::law_job_logs(id, j, tz, job);
    law_log_files(jobs, r);
}

/// What the log tool does: paths go before streaming, streaming before searching, searching
/// before the index; and a screen is used where there is one and something to show on it.
pub proof fn law_mode(
    paths: bool,
    follow: bool,
    grep: bool,
    any_targets: bool,
    full_screen: bool,
    r: Mode,
)
    requires
        call_ensures(logs::mode, (paths, follow, grep, any_targets, full_screen), r),
    ensures
        paths <==> r is Paths || r is NoPaths,
        r is Paths ==> any_targets,
        r is NoPaths ==> !any_targets,
        !paths && follow <==> r is Follow || r is Pages,
        r is Pages <==> !paths && follow && any_targets && full_screen,
        r is Search <==> !paths && !follow && grep,
        !paths && !follow && !grep <==> r is NoLogs || r is Index || r is Picker,
        r is NoLogs ==> !any_targets,
        r is Picker ==> any_targets && full_screen,
        r is Index ==> any_targets && !full_screen,
{
}

// ---------------------------------------------------------------------------
// what is shown of a line
// ---------------------------------------------------------------------------

/// What is shown of a line that was rewritten is what stands behind its last carriage return but
/// those at its end.
pub proof fn law_rewritten_line(b: &[u8], r: String, a: Seq<u8>, c: Seq<u8>, n: nat)
    requires
        call_ensures(logtext::display_bytes, (b,), r),
        c.len() > 0,
        !c.contains(0x0d),
        b@ == a + seq![0x0du8] + c + Seq::new(n, |i: int| 0x0du8),
    ensures
        r@ == logtext::capped(text::utf8_lossy(c)),
{
    let ends = Seq::new(n, |i: int| 0x0du8);
    let s = a + seq![0x0du8] + c;
    lemma_crs_at_end(s, n);
    assert(s.last() == c.last());
    assert(c.contains(c.last()));
    lemma_behind_last_cr(a, c);
}

/// What is shown of a line that was not rewritten is all of it but the carriage returns at its
/// end.
pub proof fn law_plain_line(b: &[u8], r: String, c: Seq<u8>, n: nat)
    requires
        call_ensures(logtext::display_bytes, (b,), r),
        !c.contains(0x0d),
        b@ == c + Seq::new(n, |i: int| 0x0du8),
    ensures
        r@ == logtext::capped(text::utf8_lossy(c)),
{
    lemma_crs_at_end(c, n);
    if c.len() > 0 {
        assert(c.contains(c.last()));
    }
    lemma_no_cr(c);
}

/// Carriage returns at the end go.
proof fn lemma_crs_at_end(s: Seq<u8>, n: nat)
    ensures
        logtext::without_crs(s + Seq::new(n, |i: int| 0x0du8)) == logtext::without_crs(s),
    decreases n,
{
    let t = s + Seq::new(n, |i: int| 0x0du8);
    if n == 0 {
        assert(t == s);
    } else {
        assert(t.last() == 0x0d);
        assert(t.drop_last() == s + Seq::new((n - 1) as nat, |i: int| 0x0du8));
        lemma_crs_at_end(s, (n - 1) as nat);
    }
}

/// What stands behind the last carriage return.
proof fn lemma_behind_last_cr(a: Seq<u8>, c: Seq<u8>)
    requires
        !c.contains(0x0d),
    ensures
        logtext::behind_cr(a + seq![0x0du8] + c) == c,
    decreases c.len(),
{
    let s = a + seq![0x0du8] + c;
    if c.len() == 0 {
        assert(s.last() == 0x0d);
        assert(c == Seq::<u8>::empty());
    } else {
        assert(c.contains(c.last()));
        assert(s.last() == c.last());
        assert(s.drop_last() == a + seq![0x0du8] + c.drop_last());
        assert forall|x: u8| c.drop_last().contains(x) implies c.contains(x) by {
            let k = choose|k: int| 0 <= k < c.len() - 1 && c.drop_last()[k] == x;
            assert(c[k] == x);
        }
        lemma_behind_last_cr(a, c.drop_last());
        assert(c.drop_last().push(c.last()) == c);
    }
}

/// Without a carriage return nothing goes.
proof fn lemma_no_cr(c: Seq<u8>)
    requires
        !c.contains(0x0d),
    ensures
        logtext::behind_cr(c) == c,
    decreases c.len(),
{
    if c.len() > 0 {
        assert(c.contains(c.last()));
        assert forall|x: u8| c.drop_last().contains(x) implies c.contains(x) by {
            let k = choose|k: int| 0 <= k < c.len() - 1 && c.drop_last()[k] == x;
            assert(c[k] == x);
        }
        lemma_no_cr(c.drop_last());
        assert(c.drop_last().push(c.last()) == c);
    } else {
        assert(c == Seq::<u8>::empty());
    }
}

/// A line is shown up to 4000 characters, and with an ellipsis behind them where it is longer.
pub proof fn law_long_line(s: String, r: String)
    requires
        call_ensures(logtext::cap, (s,), r),
    ensures
        s@.len() <= 4000 ==> r@ == s@,
        s@.len() > 4000 ==> r@ == s@.take(4000) + seq!['…'],
{
    if s@.len() > 4000 {
        assert(r@ == s@.take(4000) + seq!['…']);
    }
}

// ---------------------------------------------------------------------------
// what becomes of a line
// ---------------------------------------------------------------------------

/// Does the pattern stand at the index `i` of the line?
pub open spec fn stands_at(line: Seq<char>, pat: Seq<char>, icase: bool, i: int) -> bool {
    0 <= i && i + pat.len() <= line.len() && forall|k: int|
        0 <= k < pat.len() ==> alike(line[i + k], #[trigger] pat[k], icase)
}

/// Does the pattern stand somewhere in the line?
pub open spec fn stands_in_line(line: Seq<char>, pat: Seq<char>, icase: bool) -> bool {
    pat.len() > 0 && exists|i: int| #[trigger] stands_at(line, pat, icase, i)
}

/// Are two characters the same, or the same but for the case of an ASCII letter where case does
/// not matter?
pub open spec fn alike(a: char, b: char, icase: bool) -> bool {
    a == b || (icase && (('A' <= a <= 'Z' && b as int == a as int + 32) || ('A' <= b <= 'Z'
        && a as int == b as int + 32)))
}

/// A pattern is found exactly where it stands.
pub(crate) proof fn lemma_found(line: Seq<char>, pat: Seq<char>, icase: bool)
    ensures
        find::found_in(line, pat, icase) is Some <==> stands_in_line(line, pat, icase),
    decreases line.len(),
{
    if pat.len() > 0 && line.len() > 0 {
        let rest = line.skip(1);
        lemma_found(rest, pat, icase);
        lemma_begins(line, pat, icase);
        if stands_in_line(rest, pat, icase) {
            let i = choose|i: int| #[trigger] stands_at(rest, pat, icase, i);
            assert forall|k: int| 0 <= k < pat.len() implies alike(
                line[i + 1 + k],
                #[trigger] pat[k],
                icase,
            ) by {
                assert(alike(rest[i + k], pat[k], icase));
            }
            assert(stands_at(line, pat, icase, i + 1));
        }
        if stands_in_line(line, pat, icase) {
            let i = choose|i: int| #[trigger] stands_at(line, pat, icase, i);
            if i > 0 {
                assert forall|k: int| 0 <= k < pat.len() implies alike(
                    rest[i - 1 + k],
                    #[trigger] pat[k],
                    icase,
                ) by {
                    assert(alike(line[i + k], pat[k], icase));
                }
                assert(stands_at(rest, pat, icase, i - 1));
            }
        }
    }
}

/// A pattern begins a line exactly where it stands at its start.
proof fn lemma_begins(line: Seq<char>, pat: Seq<char>, icase: bool)
    ensures
        find::begins_with(line, pat, icase) == stands_at(line, pat, icase, 0),
{
    if find::begins_with(line, pat, icase) {
        assert forall|k: int| 0 <= k < pat.len() implies alike(line[0 + k], #[trigger] pat[k], icase) by {
            lemma_alike(line[k], pat[k], icase);
        }
    }
    if stands_at(line, pat, icase, 0) {
        assert forall|k: int| 0 <= k < pat.len() implies find::same_char(
            #[trigger] line[k],
            pat[k],
            icase,
        ) by {
            assert(alike(line[0 + k], pat[k], icase));
            lemma_alike(line[k], pat[k], icase);
        }
    }
}

/// Characters that are taken for the same are alike.
pub(crate) proof fn lemma_alike(a: char, b: char, icase: bool)
    ensures
        find::same_char(a, b, icase) == alike(a, b, icase),
{
}

/// A line matches exactly where the pattern stands in it; an empty pattern stands nowhere; case
/// matters unless it is to be ignored.
pub proof fn law_match(line: &str, pat: &str, icase: bool, r: bool)
    requires
        call_ensures(search::has_match, (line, pat, icase), r),
    ensures
        r <==> stands_in_line(line@, pat@, icase),
{
    lemma_found(line@, pat@, icase);
}

/// A line of a log that does not match goes; what matches, or has nothing to match, is shown
/// where its log is visible and else kept; a status line is shown where it is visible, and is
/// not kept.
pub proof fn law_route(line: &str, sys: bool, visible: bool, grep: Option<(&str, bool)>, r: Route)
    requires
        call_ensures(follow::route, (line, sys, visible, grep), r),
    ensures
        ({
            let wanted = sys || (grep matches Some(g) ==> stands_in_line(line@, g.0@, g.1));
            &&& r is Show <==> wanted && visible
            &&& r is Keep <==> wanted && !visible && !sys
            &&& r is Skip <==> !wanted || (sys && !visible)
        }),
{
    if let Some(g) = grep {
        lemma_found(line@, g.0@, g.1);
    }
}

/// A log is visible unless another job has the focus.
pub proof fn law_visible(solo: Option<usize>, jidx: usize, r: bool)
    requires
        call_ensures(follow::is_visible, (solo, jidx), r),
    ensures
        r <==> (solo is None || solo == Some(jidx)),
{
}

/// A search without a pattern, or without logs, does not start; a search ends well exactly where
/// something matched.
pub proof fn law_search_ends(
    pat: &str,
    any_targets: bool,
    refused: Option<(String, u8)>,
    t: &search::Tally,
    status: u8,
)
    requires
        call_ensures(search::refuse_search, (pat, any_targets), refused),
        call_ensures(search::search_status, (t,), status),
    ensures
        refused is None <==> pat@.len() > 0 && any_targets,
        refused matches Some(e) ==> e.1 != 0 && (e.1 == 2 <==> pat@.len() == 0),
        status == 0 <==> t.total > 0,
        status == 1 <==> t.total == 0,
{
}

// ---------------------------------------------------------------------------
// following
// ---------------------------------------------------------------------------

/// The first look at a log asks for its end: all of it up to 64 KiB, and then goes on behind it.
/// A log that grew is asked for what is new, from where it was read, up to 2 MiB; one that
/// shrank is read from its start again; one that did neither is asked for nothing.
pub proof fn law_looks(s: StreamView, n: u64)
    requires
        0 <= s.offset <= u64::MAX,
    ensures
        ({
            let (t, said, ask) = follow::looked(s, Some(n));
            &&& t.opened
            &&& !s.opened ==> t.offset == n && t.buf == s.buf && (ask matches Ask::Tail {
                start,
                len,
            } && start + len == n && (n <= 65536 ==> start == 0) && (n > 65536 ==> len == 65536))
            &&& s.opened && n > s.offset ==> t == s && said is None && (ask matches Ask::More {
                start,
                len,
            } && start == s.offset && (n - s.offset <= 2097152 ==> len == n - s.offset) && (n
                - s.offset > 2097152 ==> len == 2097152))
            &&& s.opened && n == s.offset ==> t == s && said is None && ask is Settle
            &&& s.opened && n < s.offset ==> t.offset == 0 && t.buf.len() == 0 && said is Some && (
            n > 0 ==> (ask matches Ask::More { start, len } && start == 0))
        }),
{
}

/// A log that is missing is waited for, and changes nothing that was read.
pub proof fn law_waits(s: StreamView)
    ensures
        ({
            let (t, said, ask) = follow::looked(s, None);
            &&& ask is Done
            &&& t.offset == s.offset && t.buf == s.buf && t.opened == s.opened
            &&& said is Some <==> !s.opened && !s.wait_announced
        }),
{
}

/// The end of a log shows its last complete lines, as many as asked for; where the log was cut
/// the first of them is not shown, since its start is missing.
pub proof fn law_backlog(chunk: Seq<u8>, start: u64, n: int)
    requires
        n >= 0,
    ensures
        ({
            let lines = follow::complete(chunk);
            let shown = follow::last_lines(follow::backlog(chunk, start), n);
            let whole = if start > 0 && lines.len() > 0 { lines.len() - 1 } else { lines.len() as int };
            &&& shown.len() == (if whole < n { whole } else { n })
            &&& forall|k: int|
                0 <= k < shown.len() ==> #[trigger] shown[k] == lines[lines.len() - shown.len() + k]
        }),
{
}

/// The lines of bytes and what follows the last of them make up the bytes, with a line feed
/// behind each line; and no line holds a line feed.
pub proof fn law_lines(b: Seq<u8>)
    ensures
        with_feeds(follow::complete(b)) + follow::unfinished(b) == b,
        forall|k: int|
            0 <= k < follow::complete(b).len() ==> !(#[trigger] follow::complete(b)[k]).contains(
                0x0a,
            ),
    decreases b.len(),
{
    follow::lemma_line_len(b);
    follow::law_unfinished(b);
    let n = follow::line_len(b);
    let all = follow::segments(b);
    if n < b.len() {
        let rest = b.skip(n + 1);
        law_lines(rest);
        follow::law_unfinished(rest);
        let more = follow::segments(rest);
        assert(all == seq![b.take(n)] + more);
        assert(follow::complete(b) == seq![b.take(n)] + follow::complete(rest));
        assert(follow::unfinished(b) == follow::unfinished(rest));
        assert(follow::complete(b).skip(1) == follow::complete(rest));
        assert(b == b.take(n) + seq![0x0au8] + rest);
        assert(with_feeds(follow::complete(b)) + follow::unfinished(b) == b.take(n) + seq![0x0au8]
            + (with_feeds(follow::complete(rest)) + follow::unfinished(rest)));
        assert forall|k: int| 0 <= k < follow::complete(b).len() implies !(
        #[trigger] follow::complete(b)[k]).contains(0x0a) by {
            if k == 0 {
                assert(follow::complete(b)[0] == b.take(n));
            } else {
                assert(follow::complete(b)[k] == follow::complete(rest)[k - 1]);
            }
        }
    } else {
        assert(follow::complete(b) == Seq::<Seq<u8>>::empty());
        assert(follow::unfinished(b) == b);
        assert(with_feeds(Seq::<Seq<u8>>::empty()) + b == b);
    }
}

/// The lines in a row, with a line feed behind each.
pub open spec fn with_feeds(lines: Seq<Seq<u8>>) -> Seq<u8>
    decreases lines.len(),
{
    if lines.len() == 0 {
        Seq::empty()
    } else {
        lines[0] + seq![0x0au8] + with_feeds(lines.skip(1))
    }
}

} // verus!

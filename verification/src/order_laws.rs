//! Laws of order and of complaints: which of several comes first, and what is said of a wrong
//! argument.

use crate::cluster::{Resv, ResvView};
use crate::logs::Target;
use crate::pbs::Job;
use crate::cluster;
use crate::cluster_laws;
use crate::digits;
use crate::job_laws;
use crate::logopts;
use crate::logs;
use crate::option_laws;
use crate::opts;
use crate::pbs;
use crate::text;
use crate::text_laws;
use vstd::prelude::*;

verus! {

// ---------------------------------------------------------------------------
// hosts and logs
// ---------------------------------------------------------------------------

/// The host of one more chunk stands behind those of the chunks before it, where it is not among
/// them.
pub proof fn law_hosts_in_order(chunks: Seq<Seq<char>>, chunk: Seq<char>, h: Seq<char>)
    requires
        job_laws::hosted(h, chunk),
    ensures
        pbs::hosts(Seq::empty()).len() == 0,
        pbs::hosts(chunks).contains(h) ==> pbs::hosts(chunks.push(chunk)) == pbs::hosts(chunks),
        !pbs::hosts(chunks).contains(h) ==> pbs::hosts(chunks.push(chunk)) == pbs::hosts(chunks).push(h),
{
    job_laws::lemma_hosted(h, chunk);
    assert(chunks.push(chunk).drop_last() == chunks);
}

/// The logs stand in the order of their jobs, and that of a job's output before that of its errors.
pub proof fn law_logs_in_order(jobs: &Vec<&Job>, r: Vec<Target>, p: int, q: int)
    requires
        call_ensures(logs::build_targets, (jobs,), r),
        0 <= p < q < r@.len(),
    ensures
        r@[p].jidx <= r@[q].jidx,
        r@[p].jidx == r@[q].jidx ==> q == p + 1 && r@[p].label@ == r@[p].job.short_id@ && r@[q].label@
            == r@[p].job.short_id@ + seq!['.', 'e'],
{
    let all = logs::all_targets(jobs@);
    let v = logs::target_views(r@);
    reveal_strlit(".e");
    assert(".e"@ == seq!['.', 'e']);
    assert(v[p] == r@[p]@ && v[q] == r@[q]@);
    lemma_in_order(jobs@, p, q);
}

/// The logs of jobs in order.
proof fn lemma_in_order(jobs: Seq<&Job>, p: int, q: int)
    requires
        0 <= p < q < logs::all_targets(jobs).len(),
    ensures
        ({
            let all = logs::all_targets(jobs);
            &&& 0 <= all[p].jidx <= all[q].jidx < jobs.len()
            &&& all[p].jidx == all[q].jidx ==> q == p + 1 && all[p].label
                == jobs[all[p].jidx].short_id@ && all[q].label == jobs[all[p].jidx].short_id@ + ".e"@
        }),
    decreases jobs.len(),
{
    let before = jobs.drop_last();
    let earlier = logs::all_targets(before);
    let own = logs::targets_of(*jobs.last(), jobs.len() - 1);
    let all = logs::all_targets(jobs);
    assert(all == earlier + own);
    assert(own.len() <= 2);
    if q < earlier.len() {
        lemma_in_order(before, p, q);
        assert(before[all[p].jidx] == jobs[all[p].jidx]);
    } else if p < earlier.len() {
        lemma_job_of(before, p);
        assert(all[p] == earlier[p]);
        assert(all[q] == own[q - earlier.len()]);
    } else {
        assert(all[p] == own[p - earlier.len()]);
        assert(all[q] == own[q - earlier.len()]);
        assert(jobs[jobs.len() - 1] == jobs.last());
    }
}

/// A log is that of one of the jobs.
proof fn lemma_job_of(jobs: Seq<&Job>, p: int)
    requires
        0 <= p < logs::all_targets(jobs).len(),
    ensures
        0 <= logs::all_targets(jobs)[p].jidx < jobs.len(),
    decreases jobs.len(),
{
    let earlier = logs::all_targets(jobs.drop_last());
    let own = logs::targets_of(*jobs.last(), jobs.len() - 1);
    if p < earlier.len() {
        lemma_job_of(jobs.drop_last(), p);
    } else {
        assert(logs::all_targets(jobs)[p] == own[p - earlier.len()]);
    }
}

// ---------------------------------------------------------------------------
// reservations
// ---------------------------------------------------------------------------

/// Is the reservation at index `i` one of root that starts after `now`?
pub open spec fn to_come(all: Seq<ResvView>, now: int, i: int) -> bool {
    0 <= i < all.len() && cluster_laws::of_root(all[i]) && all[i].start > now
}

/// Of the reservations of root that start soonest, the next window is the first one listed.
pub proof fn law_first_window(stdout: &[u8], now: i64, tz: i64, w: Resv)
    requires
        call_ensures(cluster::next_reservation, (stdout, now, tz), Some(w)),
    ensures
        ({
            let all = cluster::reservations(text::utf8_lossy(stdout@), tz as int);
            exists|i: int| #[trigger]
                to_come(all, now as int, i) && all[i] == w@ && forall|j: int|
                    j < i && #[trigger] to_come(all, now as int, j) ==> all[j].start > w.start
        }),
{
    let all = cluster::reservations(text::utf8_lossy(stdout@), tz as int);
    lemma_first_soonest(all, now as int);
}

/// The soonest reservation is the first one listed of those that start then.
proof fn lemma_first_soonest(all: Seq<ResvView>, now: int)
    requires
        cluster::soonest(all, now) is Some,
    ensures
        exists|i: int| #[trigger]
            to_come(all, now, i) && all[i] == cluster::soonest(all, now)->0 && forall|j: int|
                j < i && #[trigger] to_come(all, now, j) ==> all[j].start > cluster::soonest(
                    all,
                    now,
                )->0.start,
    decreases all.len(),
{
    let rest = all.drop_last();
    let best = cluster::soonest(rest, now);
    let w = cluster::soonest(all, now)->0;
    let n = all.len() - 1;
    cluster_laws::lemma_of_root(all.last());
    if cluster::by_root(all.last()) && all.last().start > now && (best is None || all.last().start
        < best->0.start) {
        assert(to_come(all, now, n) && all[n] == w);
        cluster::law_soonest(rest, now);
        assert forall|j: int| j < n && #[trigger] to_come(all, now, j) implies all[j].start > w.start by {
            assert(rest[j] == all[j]);
            cluster_laws::lemma_of_root(all[j]);
            assert(cluster::by_root(rest[j]));
        }
    } else {
        lemma_first_soonest(rest, now);
        let i = choose|i: int| #[trigger]
            to_come(rest, now, i) && rest[i] == w && forall|j: int|
                j < i && #[trigger] to_come(rest, now, j) ==> rest[j].start > w.start;
        assert(all[i] == rest[i]);
        assert(to_come(all, now, i));
        assert forall|j: int| j < i && #[trigger] to_come(all, now, j) implies all[j].start > w.start by {
            assert(rest[j] == all[j]);
            assert(to_come(rest, now, j));
        }
    }
}

/// The reservations that a text describes are those that its lines complete, and the last one; a
/// line without an equals sign says nothing of them.
pub proof fn law_reservations(t: Seq<char>, tz: int, lines: Seq<Seq<char>>, line: Seq<char>)
    ensures
        cluster::reservations(t, tz).len() == cluster::described(text::text_lines(t), tz).0.len() + 1,
        cluster::reservations(t, tz).last() == cluster::described(text::text_lines(t), tz).1,
        forall|i: int|
            0 <= i < cluster::described(text::text_lines(t), tz).0.len()
                ==> #[trigger] cluster::reservations(t, tz)[i] == cluster::described(
                text::text_lines(t),
                tz,
            ).0[i],
        text_laws::free_of(text::trimmed(line), '=') && !text::begins(text::trimmed(line), "Resv ID:"@)
            ==> cluster::described(lines.push(line), tz) == cluster::described(lines, tz),
{
    assert(lines.push(line).drop_last() == lines);
    text::lemma_first_at(text::trimmed(line), '=');
}

// ---------------------------------------------------------------------------
// complaints
// ---------------------------------------------------------------------------

/// The arguments of the listing are read from the first on, with the options of an empty command
/// line to start with.
pub proof fn law_listing_args(args: &Vec<String>, r: Result<opts::Request, String>, o: opts::OptsView)
    requires
        call_ensures(opts::parse_args, (args,), r),
        o == opts::defaults(),
    ensures
        o.points && !o.long && !o.cluster && !o.all_users && !o.history && !o.ascii,
        o.user is None && o.watch is None && o.color is None && o.width is None && o.ids.len() == 0,
        r matches Ok(q) ==> opts::parsed(text::texts(args@), o) == Ok::<opts::RequestView, Seq<char>>(q@),
        r matches Err(m) ==> opts::parsed(text::texts(args@), o) == Err::<opts::RequestView, Seq<char>>(
            m@,
        ),
{
}

/// What is said of a wrong argument of the listing: which option lacks what, or that there is no
/// such option.
pub proof fn law_listing_complaints(a: Seq<char>, v: Seq<char>, rest: Seq<Seq<char>>, o: opts::OptsView)
    ensures
        opts::parsed(seq!["-u"@], o) == complaint::<opts::RequestView>("--user needs a username"@),
        opts::parsed(seq!["--user"@], o) == complaint::<opts::RequestView>("--user needs a username"@),
        opts::parsed(seq!["--color"@], o) == complaint::<opts::RequestView>(
            "--color takes always, never, or auto"@,
        ),
        opts::parsed(seq!["--width"@], o) == complaint::<opts::RequestView>("--width needs a number"@),
        v.len() > 0 && v[0] != '+' && !digits::is_digit(v[0]) ==> opts::parsed(
            seq!["--width"@, v] + rest,
            o,
        ) == complaint::<opts::RequestView>("--width needs a number"@),
        a.len() > 0 && a[0] == '-' && a != "-h"@ && a != "--help"@ && a != "-V"@ && a != "--version"@ && a
            != "-l"@ && a != "--long"@ && a != "-c"@ && a != "-a"@ && a != "--all"@ && a != "-x"@ && a
            != "--history"@ && a != "--no-points"@ && a != "--ascii"@ && a != "-u"@ && a != "--user"@
            && a != "-w"@ && a != "--watch"@ && a != "--color"@ && a != "--width"@ ==> opts::parsed(
            seq![a] + rest,
            o,
        ) == complaint::<opts::RequestView>("unknown option: "@ + a),
{
    option_laws::lemma_listing_options();
    assert(seq!["-u"@].skip(1).len() == 0 && seq!["--user"@].skip(1).len() == 0 && seq!["--width"@].skip(
        1,
    ).len() == 0 && seq!["--color"@].skip(1).len() == 0);
    let w = seq!["--width"@, v] + rest;
    assert(w[0] == "--width"@);
    assert(w.skip(1)[0] == v);
    if v.len() > 0 && v[0] != '+' && !digits::is_digit(v[0]) {
        assert(digits::unsigned_part(v, '+') == v);
        assert(digits::read_nat(v, usize::MAX as nat) is None);
    }
    assert((seq![a] + rest)[0] == a);
}

/// A complaint.
pub open spec fn complaint<T>(m: Seq<char>) -> Result<T, Seq<char>> {
    Err(m)
}

/// The arguments of the log tool are read from the first on, with the options of an empty command
/// line to start with.
pub proof fn law_log_args(args: &Vec<String>, r: Result<logopts::Request, String>, o: logopts::OptsView)
    requires
        call_ensures(logopts::parse_args, (args,), r),
        o == logopts::defaults(),
    ensures
        !o.follow && !o.icase && !o.history && !o.all_users && !o.paths,
        o.grep is None && o.user is None && o.color is None && o.context == 0 && o.tail == 10
            && o.ids.len() == 0,
        r matches Ok(q) ==> logopts::parsed(text::texts(args@), o) == Ok::<
            logopts::RequestView,
            Seq<char>,
        >(q@),
        r matches Err(m) ==> logopts::parsed(text::texts(args@), o) == Err::<
            logopts::RequestView,
            Seq<char>,
        >(m@),
{
}

/// What is said of a wrong argument of the log tool.
pub proof fn law_log_complaints(a: Seq<char>, v: Seq<char>, rest: Seq<Seq<char>>, o: logopts::OptsView)
    ensures
        logopts::parsed(seq!["-g"@], o) == complaint::<logopts::RequestView>("--grep needs a pattern"@),
        logopts::parsed(seq!["-u"@], o) == complaint::<logopts::RequestView>("--user needs a username"@),
        logopts::parsed(seq!["-C"@], o) == complaint::<logopts::RequestView>("--context needs a number"@),
        logopts::parsed(seq!["-n"@], o) == complaint::<logopts::RequestView>("--tail needs a number"@),
        logopts::parsed(seq!["--color"@], o) == complaint::<logopts::RequestView>(
            "--color takes always, never, or auto"@,
        ),
        v.len() > 0 && v[0] != '+' && !digits::is_digit(v[0]) ==> logopts::parsed(
            seq!["-n"@, v] + rest,
            o,
        ) == complaint::<logopts::RequestView>("--tail needs a number"@) && logopts::parsed(
            seq!["-C"@, v] + rest,
            o,
        ) == complaint::<logopts::RequestView>("--context needs a number"@),
        a.len() > 0 && a[0] == '-' && a != "-h"@ && a != "--help"@ && a != "-V"@ && a != "--version"@ && a
            != "-f"@ && a != "--follow"@ && a != "-p"@ && a != "--paths"@ && a != "-i"@ && a
            != "--ignore-case"@ && a != "-x"@ && a != "--history"@ && a != "-a"@ && a != "--all"@ && a
            != "-g"@ && a != "--grep"@ && a != "-u"@ && a != "--user"@ && a != "-C"@ && a
            != "--context"@ && a != "-n"@ && a != "--tail"@ && a != "--color"@ ==> logopts::parsed(
            seq![a] + rest,
            o,
        ) == complaint::<logopts::RequestView>("unknown option: "@ + a),
{
    option_laws::lemma_log_options();
    assert(seq!["-g"@].skip(1).len() == 0 && seq!["-u"@].skip(1).len() == 0 && seq!["-C"@].skip(1).len()
        == 0 && seq!["-n"@].skip(1).len() == 0 && seq!["--color"@].skip(1).len() == 0);
    let t = seq!["-n"@, v] + rest;
    let c = seq!["-C"@, v] + rest;
    assert(t[0] == "-n"@ && t.skip(1)[0] == v);
    assert(c[0] == "-C"@ && c.skip(1)[0] == v);
    if v.len() > 0 && v[0] != '+' && !digits::is_digit(v[0]) {
        assert(digits::unsigned_part(v, '+') == v);
        assert(digits::read_nat(v, usize::MAX as nat) is None);
    }
    assert((seq![a] + rest)[0] == a);
}

} // verus!

//! Laws of a listing: which jobs it shows, in which order, and what it adds up.

use crate::footer::Sum;
use crate::pbs::{Job, RateCard, State};
use crate::reals::Real;
use crate::view::{Entry, Viewport};
use crate::footer;
use crate::order;
use crate::pbs;
use crate::select;
use crate::text;
use vstd::prelude::*;

verus! {

// ---------------------------------------------------------------------------
// the order of jobs
// ---------------------------------------------------------------------------

/// The place of a state: active work first, then what waits, then history.
pub open spec fn turn(s: State) -> int {
    match s {
        State::Running => 0,
        State::Exiting => 1,
        State::Queued => 2,
        State::Waiting => 3,
        State::Held => 4,
        State::Suspended => 5,
        State::Finished => 6,
        State::Other => 7,
    }
}

/// Is it known which share of its walltime a job has used?
pub open spec fn share_known(j: Job) -> bool {
    j.walltime_used is Some && (j.walltime_req matches Some(q) && q > 0)
}

/// Does `x` stand before `y` in a list of indices?
pub open spec fn stands_before(list: Seq<usize>, x: int, y: int) -> bool {
    exists|p: int, q: int|
        0 <= p < q < list.len() && #[trigger] list[p] == x && #[trigger] list[q] == y
}

/// Is `i` in a list of indices?
pub open spec fn stands_in(list: Seq<usize>, i: int) -> bool {
    exists|p: int| 0 <= p < list.len() && #[trigger] list[p] == i
}

/// A list of indices as numbers holds the same.
proof fn lemma_ints(list: Seq<usize>)
    ensures
        order::ints(list).len() == list.len(),
        forall|p: int| 0 <= p < list.len() ==> #[trigger] order::ints(list)[p] == list[p],
        forall|i: int| #[trigger] order::ints(list).contains(i) <==> stands_in(list, i),
{
    assert forall|i: int| #[trigger] order::ints(list).contains(i) implies stands_in(list, i) by {
        let p = choose|p: int| 0 <= p < list.len() && order::ints(list)[p] == i;
        assert(list[p] == i);
    }
    assert forall|i: int| stands_in(list, i) implies #[trigger] order::ints(list).contains(i) by {
        let p = choose|p: int| 0 <= p < list.len() && #[trigger] list[p] == i;
        assert(order::ints(list)[p] == i);
    }
}

/// Of two that are listed, one stands before the other.
proof fn lemma_one_first(list: Seq<usize>, x: int, y: int)
    requires
        stands_in(list, x),
        stands_in(list, y),
        x != y,
    ensures
        stands_before(list, x, y) || stands_before(list, y, x),
{
    let p = choose|p: int| 0 <= p < list.len() && #[trigger] list[p] == x;
    let q = choose|q: int| 0 <= q < list.len() && #[trigger] list[q] == y;
    if p < q {
        assert(list[p] == x && list[q] == y);
    } else {
        assert(list[q] == y && list[p] == x);
    }
}

/// A listing holds every job of the owner asked for, or of all, once, and no other.
pub proof fn law_listed(jobs: &Vec<Job>, owner: Option<&String>, shares: &Vec<Real>, r: Vec<usize>)
    requires
        call_ensures(select::list_jobs, (jobs, owner, shares), r),
    ensures
        forall|i: int| #[trigger]
            stands_in(r@, i) <==> 0 <= i < jobs@.len() && (owner matches Some(u)
                ==> jobs@[i].owner@ == u@),
        forall|p: int, q: int| 0 <= p < q < r@.len() ==> #[trigger] r@[p] != #[trigger] r@[q],
{
    let list = select::listing(jobs@, select::opt_name(owner), shares@);
    let wanted = select::asked_for(jobs@, select::opt_name(owner));
    select::law_listing(jobs@, select::opt_name(owner), shares@);
    lemma_ints(r@);
    assert forall|i: int| #[trigger] stands_in(r@, i) <==> 0 <= i < jobs@.len() && (
    owner matches Some(u) ==> jobs@[i].owner@ == u@) by {
        assert(list.contains(i) == stands_in(r@, i));
        if stands_in(r@, i) {
            let p = choose|p: int| 0 <= p < list.len() && list[p] == i;
            assert(wanted(list[p]));
        } else if 0 <= i < jobs@.len() {
            assert(wanted(i) ==> list.contains(i));
        }
    }
    assert forall|p: int, q: int| 0 <= p < q < r@.len() implies #[trigger] r@[p] != #[trigger] r@[q] by {
        assert(list[p] != list[q]);
    }
}

/// Two jobs of a listing stand in the order of their keys.
proof fn lemma_key_order(
    jobs: &Vec<Job>,
    owner: Option<&String>,
    shares: &Vec<Real>,
    r: Vec<usize>,
    x: int,
    y: int,
)
    requires
        call_ensures(select::list_jobs, (jobs, owner, shares), r),
        stands_in(r@, x),
        stands_in(r@, y),
        x != y,
        order::ahead(
            select::job_key(jobs@[x], shares@[x]),
            select::job_key(jobs@[y], shares@[y]),
        ),
    ensures
        stands_before(r@, x, y),
{
    let list = select::listing(jobs@, select::opt_name(owner), shares@);
    select::law_listing(jobs@, select::opt_name(owner), shares@);
    lemma_ints(r@);
    lemma_one_first(r@, x, y);
    if stands_before(r@, y, x) {
        let (p, q) = choose|p: int, q: int|
            0 <= p < q < r@.len() && #[trigger] r@[p] == y && #[trigger] r@[q] == x;
        assert(list[p] == y && list[q] == x);
        assert(list[p] != list[q]);
    }
}

/// Active work comes first in a listing.
pub proof fn law_active_first(
    jobs: &Vec<Job>,
    owner: Option<&String>,
    shares: &Vec<Real>,
    r: Vec<usize>,
    x: int,
    y: int,
)
    requires
        call_ensures(select::list_jobs, (jobs, owner, shares), r),
        stands_in(r@, x),
        stands_in(r@, y),
        turn(jobs@[x].state) < turn(jobs@[y].state),
    ensures
        stands_before(r@, x, y),
{
    lemma_key_order(jobs, owner, shares, r, x, y);
}

/// Of two jobs in the same state, the one that has used the greater share of its walltime comes
/// first.
pub proof fn law_greater_share_first(
    jobs: &Vec<Job>,
    owner: Option<&String>,
    shares: &Vec<Real>,
    r: Vec<usize>,
    x: int,
    y: int,
)
    requires
        call_ensures(select::list_jobs, (jobs, owner, shares), r),
        stands_in(r@, x),
        stands_in(r@, y),
        jobs@[x].state == jobs@[y].state,
        share_known(jobs@[x]),
        share_known(jobs@[y]),
        shares@[x].above(shares@[y]),
    ensures
        stands_before(r@, x, y),
{
    lemma_key_order(jobs, owner, shares, r, x, y);
}

/// Of two jobs in the same state, one whose share is known comes before one whose share is not.
pub proof fn law_known_share_first(
    jobs: &Vec<Job>,
    owner: Option<&String>,
    shares: &Vec<Real>,
    r: Vec<usize>,
    x: int,
    y: int,
)
    requires
        call_ensures(select::list_jobs, (jobs, owner, shares), r),
        stands_in(r@, x),
        stands_in(r@, y),
        jobs@[x].state == jobs@[y].state,
        share_known(jobs@[x]),
        !share_known(jobs@[y]),
        shares@[x].reaches(Real { bits: 0 }),
    ensures
        stands_before(r@, x, y),
{
    lemma_key_order(jobs, owner, shares, r, x, y);
}

/// Of two jobs in the same state whose shares are the same, or not known, the one with the
/// lesser id comes first.
pub proof fn law_lesser_id_first(
    jobs: &Vec<Job>,
    owner: Option<&String>,
    shares: &Vec<Real>,
    r: Vec<usize>,
    x: int,
    y: int,
)
    requires
        call_ensures(select::list_jobs, (jobs, owner, shares), r),
        stands_in(r@, x),
        stands_in(r@, y),
        jobs@[x].state == jobs@[y].state,
        share_known(jobs@[x]) == share_known(jobs@[y]),
        share_known(jobs@[x]) ==> shares@[x] == shares@[y],
        text::text_before(jobs@[x].short_id@, jobs@[y].short_id@),
    ensures
        stands_before(r@, x, y),
{
    text::lemma_bytes_irreflexive(vstd::utf8::encode_utf8(jobs@[x].short_id@));
    lemma_key_order(jobs, owner, shares, r, x, y);
}

/// A listing of logs holds every job of the owner asked for, or of all, and no other; active
/// work first, then by id, whatever the jobs have used.
pub proof fn law_logs_listed(jobs: &Vec<Job>, owner: Option<&String>, r: Vec<usize>)
    requires
        call_ensures(select::list_logs, (jobs, owner), r),
    ensures
        forall|i: int| #[trigger]
            stands_in(r@, i) <==> 0 <= i < jobs@.len() && (owner matches Some(u)
                ==> jobs@[i].owner@ == u@),
        forall|p: int, q: int|
            0 <= p < q < r@.len() ==> #[trigger] r@[p] != #[trigger] r@[q] && {
                let a = jobs@[r@[p] as int];
                let b = jobs@[r@[q] as int];
                turn(a.state) < turn(b.state) || (a.state == b.state && !text::text_before(
                    b.short_id@,
                    a.short_id@,
                ))
            },
{
    let list = select::log_listing(jobs@, select::opt_name(owner));
    let wanted = select::asked_for(jobs@, select::opt_name(owner));
    select::law_log_listing(jobs@, select::opt_name(owner));
    lemma_ints(r@);
    assert forall|i: int| #[trigger] stands_in(r@, i) <==> 0 <= i < jobs@.len() && (
    owner matches Some(u) ==> jobs@[i].owner@ == u@) by {
        assert(list.contains(i) == stands_in(r@, i));
        if stands_in(r@, i) {
            let p = choose|p: int| 0 <= p < list.len() && list[p] == i;
            assert(wanted(list[p]));
        } else if 0 <= i < jobs@.len() {
            assert(wanted(i) ==> list.contains(i));
        }
    }
    assert forall|p: int, q: int| 0 <= p < q < r@.len() implies #[trigger] r@[p] != #[trigger] r@[q]
        && {
        let a = jobs@[r@[p] as int];
        let b = jobs@[r@[q] as int];
        turn(a.state) < turn(b.state) || (a.state == b.state && !text::text_before(
            b.short_id@,
            a.short_id@,
        ))
    } by {
        assert(list[p] != list[q]);
    }
}

// ---------------------------------------------------------------------------
// whose jobs, and when
// ---------------------------------------------------------------------------

/// An id that is asked for, or `-a`, shows jobs whoever owns them; else those of the user that is
/// named, or of oneself.
pub proof fn law_owner(
    all_users: bool,
    ids_given: bool,
    user: Option<&String>,
    current: &str,
    r: Option<String>,
)
    requires
        call_ensures(select::filter_owner, (all_users, ids_given, user, current), r),
    ensures
        all_users ==> r is None,
        ids_given ==> r is None,
        !all_users && !ids_given && user is Some ==> (r matches Some(o) && o@ == user->0@),
        !all_users && !ids_given && user is None ==> (r matches Some(o) && o@ == current@),
{
}

/// The user is the one of `USER`, or else of `LOGNAME`.
pub proof fn law_current_user(user: Option<String>, logname: Option<String>, r: String)
    requires
        call_ensures(select::current_user, (user, logname), r),
    ensures
        user matches Some(u) ==> r@ == u@,
        user is None && logname is Some ==> r@ == logname->0@,
        user is None && logname is None ==> r@.len() == 0,
{
    reveal_strlit("");
}

/// Colours are on where they are asked for, and off where they are refused; else a terminal has
/// them, unless the environment refuses them.
pub proof fn law_colour(asked: Option<bool>, terminal: bool, no_color: bool, r: bool)
    requires
        call_ensures(select::use_color, (asked, terminal, no_color), r),
    ensures
        asked == Some(true) ==> r,
        asked == Some(false) ==> !r,
        asked is None ==> (r <==> terminal && !no_color),
{
}

/// A listing is of the server's time, where it tells one.
pub proof fn law_time(timestamp: i64, clock: i64, r: i64)
    requires
        call_ensures(select::listing_time, (timestamp, clock), r),
    ensures
        timestamp > 0 ==> r == timestamp,
        timestamp <= 0 ==> r == clock,
{
}

/// The title names the owner; or else says whether jobs were selected.
pub proof fn law_who(owner: Option<&String>, ids_given: bool, r: String)
    requires
        call_ensures(select::who, (owner, ids_given), r),
    ensures
        owner matches Some(u) ==> r@ == u@,
        owner is None && ids_given ==> r@ == "selected jobs"@,
        owner is None && !ids_given ==> r@ == "all users"@,
{
}

// ---------------------------------------------------------------------------
// points
// ---------------------------------------------------------------------------

/// Has a job a price: is the rate of its type known?
pub open spec fn rated(j: Job, rates: Map<Seq<char>, Real>) -> bool {
    j.rtype matches Some(t) && rates.dom().contains(t@)
}

/// A job costs the rate of its type for each of its nodes, of which it has one at least.
pub proof fn law_point_rate(j: &Job, rates: &RateCard, r: Option<(Real, u64)>)
    requires
        call_ensures(Job::point_rate, (j, rates), r),
    ensures
        r is Some <==> rated(*j, rates@),
        r matches Some(p) ==> p.0 == rates@[j.rtype->0@] && p.1 >= 1 && (j.nodect >= 1 ==> p.1
            == j.nodect) && (j.nodect == 0 ==> p.1 == 1),
{
}

/// A job has spent its rate for the time that it has used, and reserves it for the time that it
/// asked for; what is not known is not priced.
pub proof fn law_points(
    j: &Job,
    rates: &RateCard,
    rate: Option<(Real, u64)>,
    spent: Option<(Real, u64, u64)>,
    reserved: Option<(Real, u64, u64)>,
)
    requires
        call_ensures(Job::point_rate, (j, rates), rate),
        call_ensures(Job::points_spent, (j, rates), spent),
        call_ensures(Job::points_reserved, (j, rates), reserved),
    ensures
        spent is Some <==> rate is Some && j.walltime_used is Some,
        spent matches Some(p) ==> (p.0, p.1) == rate->0 && p.2 == j.walltime_used->0,
        reserved is Some <==> rate is Some && j.walltime_req is Some,
        reserved matches Some(p) ==> (p.0, p.1) == rate->0 && p.2 == j.walltime_req->0,
{
}

/// Without overrides, a node-hour of rt_QF costs 5 points, of rt_QG 2, of rt_QC 1, and of rt_QD,
/// rt_QS and rt_QA 10; no other type has a rate. An override changes the rate of its type alone.
pub proof fn law_rate_card(overrides: &Vec<(String, Real)>, r: RateCard, name: Seq<char>)
    requires
        call_ensures(pbs::point_rates, (overrides,), r),
        forall|k: int| 0 <= k < overrides@.len() ==> (#[trigger] overrides@[k]).0@ != name,
    ensures
        name == "rt_QF"@ ==> r@.dom().contains(name) && r@[name].bits == 0x4014_0000_0000_0000,
        name == "rt_QG"@ ==> r@.dom().contains(name) && r@[name].bits == 0x4000_0000_0000_0000,
        name == "rt_QC"@ ==> r@.dom().contains(name) && r@[name].bits == 0x3ff0_0000_0000_0000,
        name == "rt_QD"@ || name == "rt_QS"@ || name == "rt_QA"@ ==> r@.dom().contains(name)
            && r@[name].bits == 0x4024_0000_0000_0000,
        r@.dom().contains(name) ==> name == "rt_QF"@ || name == "rt_QG"@ || name == "rt_QC"@
            || name == "rt_QD"@ || name == "rt_QS"@ || name == "rt_QA"@,
{
    pbs::law_no_entry_changes_nothing(pbs::standard_rates(), overrides@, name);
    reveal_strlit("rt_QF");
    reveal_strlit("rt_QG");
    reveal_strlit("rt_QC");
    reveal_strlit("rt_QD");
    reveal_strlit("rt_QS");
    reveal_strlit("rt_QA");
    assert("rt_QF"@[4] == 'F' && "rt_QG"@[4] == 'G' && "rt_QC"@[4] == 'C' && "rt_QD"@[4] == 'D'
        && "rt_QS"@[4] == 'S' && "rt_QA"@[4] == 'A');
}

/// The last override of a type is its rate.
pub proof fn law_override(overrides: &Vec<(String, Real)>, r: RateCard, i: int)
    requires
        call_ensures(pbs::point_rates, (overrides,), r),
        0 <= i < overrides@.len(),
        forall|k: int|
            i < k < overrides@.len() ==> (#[trigger] overrides@[k]).0@ != overrides@[i].0@,
    ensures
        r@.dom().contains(overrides@[i].0@),
        r@[overrides@[i].0@] == overrides@[i].1,
{
    pbs::law_last_entry_counts(pbs::standard_rates(), overrides@, overrides@[i].0@, i);
}

/// Which jobs a sum adds up: the burn the running ones with a rate; the points spent those with
/// a rate and a time used; the points reserved those with a rate and a limit that have not
/// finished, and those committed of a group the ones charged to it. Each is added once.
pub proof fn law_sums(entries: &Vec<Entry>, sum: &Sum, view: &Viewport, r: Vec<usize>)
    requires
        call_ensures(footer::summands, (entries, sum, view), r),
    ensures
        forall|p: int, q: int| 0 <= p < q < r@.len() ==> #[trigger] r@[p] < #[trigger] r@[q],
        forall|i: int| #[trigger]
            stands_in(r@, i) <==> 0 <= i < entries@.len() && rated(
                *entries@[i].job,
                view.rates@,
            ) && match *sum {
                Sum::Burn => entries@[i].job.state == State::Running,
                Sum::Spent => entries@[i].job.walltime_used is Some,
                Sum::Reserved => entries@[i].job.walltime_req is Some && entries@[i].job.state
                    != State::Finished,
                Sum::Committed(g) => entries@[i].job.walltime_req is Some && entries@[i].job.state
                    != State::Finished && entries@[i].job.group@ == g@,
            },
{
    let wanted = footer::addends(entries@, *sum, *view);
    let list = footer::adding(entries@, *sum, *view);
    select::law_indices(entries@.len(), wanted);
    lemma_ints(r@);
    assert forall|p: int, q: int| 0 <= p < q < r@.len() implies #[trigger] r@[p] < #[trigger] r@[q] by {
        assert(list[p] < list[q]);
    }
    assert forall|i: int| #[trigger] stands_in(r@, i) <==> 0 <= i < entries@.len() && rated(
        *entries@[i].job,
        view.rates@,
    ) && match *sum {
        Sum::Burn => entries@[i].job.state == State::Running,
        Sum::Spent => entries@[i].job.walltime_used is Some,
        Sum::Reserved => entries@[i].job.walltime_req is Some && entries@[i].job.state
            != State::Finished,
        Sum::Committed(g) => entries@[i].job.walltime_req is Some && entries@[i].job.state
            != State::Finished && entries@[i].job.group@ == g@,
    } by {
        assert(list.contains(i) == stands_in(r@, i));
        if stands_in(r@, i) {
            let p = choose|p: int| 0 <= p < list.len() && list[p] == i;
            assert(wanted(list[p]));
        } else if 0 <= i < entries@.len() {
            assert(wanted(i) ==> list.contains(i));
        }
    }
}

} // verus!

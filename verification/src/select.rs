//! Which jobs a listing shows, and in which order.

use crate::order::{Key, KeyView};
use crate::pbs::Job;
use crate::reals::Real;
use crate::order;
use crate::pbs;
use crate::reals;
use crate::text;
use vstd::prelude::*;

verus! {

/// The user whose jobs are asked for: the name that the environment gives, or nobody.
pub fn current_user(user: Option<String>, logname: Option<String>) -> (r: String)
    ensures
        r@ == pbs::text_or(pbs::opt_text(user), pbs::text_or(pbs::opt_text(logname), ""@)),
{
    match user {
        Some(u) => u,
        None => match logname {
            Some(l) => l,
            None => "".to_owned(),
        },
    }
}

/// The owner that jobs are filtered by. An explicit job id means "show me this job",
/// whoever owns it.
pub fn filter_owner(all_users: bool, ids_given: bool, user: Option<&String>, current: &str) -> (r: Option<
    String,
>)
    ensures
        pbs::opt_text(r) == (if all_users || ids_given {
            None
        } else {
            Some(
                match user {
                    Some(u) => u@,
                    None => current@,
                },
            )
        }),
{
    if all_users || ids_given {
        None
    } else {
        match user {
            Some(u) => Some(u.clone()),
            None => Some(current.to_owned()),
        }
    }
}

/// Whose jobs a listing shows, in words.
pub fn who(owner: Option<&String>, ids_given: bool) -> (r: String)
    ensures
        r@ == match owner {
            Some(u) => u@,
            None => if ids_given {
                "selected jobs"@
            } else {
                "all users"@
            },
        },
{
    match owner {
        Some(u) => u.clone(),
        None => if ids_given {
            "selected jobs".to_owned()
        } else {
            "all users".to_owned()
        },
    }
}

/// The time that a listing is of: the server's, or else the clock's.
pub fn listing_time(timestamp: i64, clock: i64) -> (r: i64)
    ensures
        r == (if timestamp > 0 {
            timestamp
        } else {
            clock
        }),
{
    if timestamp > 0 {
        timestamp
    } else {
        clock
    }
}

/// Are colours on? What was asked for decides; else a terminal has them, unless the
/// environment says no.
pub fn use_color(asked: Option<bool>, terminal: bool, no_color: bool) -> (r: bool)
    ensures
        r == match asked {
            Some(c) => c,
            None => terminal && !no_color,
        },
{
    match asked {
        Some(c) => c,
        None => terminal && !no_color,
    }
}

// ---------------------------------------------------------------------------
// the jobs of an owner
// ---------------------------------------------------------------------------

/// The indices below `n` that are wanted.
pub open spec fn indices(n: nat, wanted: spec_fn(int) -> bool) -> Seq<int>
    decreases n,
{
    if n == 0 {
        Seq::empty()
    } else {
        let rest = indices((n - 1) as nat, wanted);
        if wanted(n - 1) {
            rest.push(n - 1)
        } else {
            rest
        }
    }
}

/// The indices are those that are wanted and no others, in order.
pub proof fn law_indices(n: nat, wanted: spec_fn(int) -> bool)
    ensures
        forall|p: int|
            0 <= p < indices(n, wanted).len() ==> 0 <= #[trigger] indices(n, wanted)[p] < n && wanted(
                indices(n, wanted)[p],
            ),
        forall|p: int, q: int|
            0 <= p < q < indices(n, wanted).len() ==> #[trigger] indices(n, wanted)[p]
                < #[trigger] indices(n, wanted)[q],
        forall|i: int|
            0 <= i < n && #[trigger] wanted(i) ==> indices(n, wanted).contains(i),
    decreases n,
{
    if n > 0 {
        let m = (n - 1) as nat;
        let rest = indices(m, wanted);
        let all = indices(n, wanted);
        law_indices(m, wanted);
        assert forall|p: int| 0 <= p < all.len() implies 0 <= #[trigger] all[p] < n && wanted(all[p]) by {
            if p < rest.len() {
                assert(all[p] == rest[p]);
            }
        }
        assert forall|p: int, q: int| 0 <= p < q < all.len() implies #[trigger] all[p]
            < #[trigger] all[q] by {
            assert(all[p] == rest[p]);
            if q < rest.len() {
                assert(all[q] == rest[q]);
            }
        }
        assert forall|i: int| 0 <= i < n && #[trigger] wanted(i) implies all.contains(i) by {
            if i < m {
                let p = choose|p: int| 0 <= p < rest.len() && rest[p] == i;
                assert(all[p] == i);
            } else {
                assert(all[all.len() - 1] == i);
            }
        }
    }
}

/// Is the job one of those asked for?
pub open spec fn belongs(job: Job, owner: Option<Seq<char>>) -> bool {
    match owner {
        Some(u) => job.owner@ == u,
        None => true,
    }
}

/// Which jobs are asked for.
pub open spec fn asked_for(jobs: Seq<Job>, owner: Option<Seq<char>>) -> spec_fn(int) -> bool {
    |i: int| belongs(jobs[i], owner)
}

/// The indices of the jobs asked for.
pub open spec fn chosen(jobs: Seq<Job>, owner: Option<Seq<char>>) -> Seq<int> {
    indices(jobs.len(), asked_for(jobs, owner))
}

/// The view of a name, where there is one.
pub open spec fn opt_name(owner: Option<&String>) -> Option<Seq<char>> {
    match owner {
        Some(u) => Some(u@),
        None => None,
    }
}

/// The indices of the jobs asked for.
pub fn choose_jobs(jobs: &Vec<Job>, owner: Option<&String>) -> (r: Vec<usize>)
    ensures
        order::ints(r@) == chosen(jobs@, opt_name(owner)),
{
    let ghost wanted = asked_for(jobs@, opt_name(owner));
    let mut out: Vec<usize> = Vec::new();
    let mut i: usize = 0;
    assert(order::ints(out@) == indices(0, wanted));
    while i < jobs.len()
        invariant
            i <= jobs@.len(),
            wanted == asked_for(jobs@, opt_name(owner)),
            order::ints(out@) == indices(i as nat, wanted),
        decreases jobs@.len() - i,
    {
        let ghost done = order::ints(out@);
        let mine = match owner {
            Some(u) => text::same(jobs[i].owner.as_str(), u.as_str()),
            None => true,
        };
        if mine {
            out.push(i);
            assert(order::ints(out@) == done.push(i as int));
        }
        i += 1;
    }
    out
}

// ---------------------------------------------------------------------------
// the order
// ---------------------------------------------------------------------------

/// Active work first; within running jobs, closest to its walltime limit first; then by
/// id. A job without a walltime share weighs less than any with one.
pub open spec fn job_key(job: Job, share: Real) -> KeyView {
    KeyView {
        rank: pbs::state_rank(job.state) as int,
        weight: (if job.frac_spec() is Some {
            share
        } else {
            Real { bits: reals::BITS_MINUS_ONE }
        }).place(),
        name: job.short_id@,
    }
}

/// Active work first, then by id.
pub open spec fn log_key(job: Job) -> KeyView {
    KeyView { rank: pbs::state_rank(job.state) as int, weight: 0, name: job.short_id@ }
}

/// The chosen items in the order of their keys.
pub open spec fn reordered(picked: Seq<int>, keys: Seq<KeyView>) -> Seq<int> {
    order::arranged(keys).map_values(|p: int| picked[p])
}

/// The indices of the jobs asked for, in the order of a job listing.
pub open spec fn listing(jobs: Seq<Job>, owner: Option<Seq<char>>, shares: Seq<Real>) -> Seq<int> {
    let picked = chosen(jobs, owner);
    reordered(picked, picked.map_values(|i: int| job_key(jobs[i], shares[i])))
}

/// The indices of the jobs asked for, in the order of a log listing.
pub open spec fn log_listing(jobs: Seq<Job>, owner: Option<Seq<char>>) -> Seq<int> {
    let picked = chosen(jobs, owner);
    reordered(picked, picked.map_values(|i: int| log_key(jobs[i])))
}

/// The chosen items in the order of their keys.
pub(crate) fn reorder(picked: &Vec<usize>, keys: &Vec<Key>) -> (r: Vec<usize>)
    requires
        picked@.len() == keys@.len(),
    ensures
        order::ints(r@) == reordered(order::ints(picked@), order::key_views(keys@)),
{
    let order = order::arrange(keys);
    let ghost all = order::key_views(keys@);
    proof {
        order::law_arranged(all);
    }
    let mut out: Vec<usize> = Vec::new();
    let mut i: usize = 0;
    while i < order.len()
        invariant
            i <= order@.len(),
            all == order::key_views(keys@),
            picked@.len() == keys@.len(),
            order::ints(order@) == order::arranged(all),
            order::in_order(all, order::arranged(all)),
            out@.len() == i,
            forall|k: int| 0 <= k < i ==> #[trigger] out@[k] == picked@[order@[k] as int],
        decreases order@.len() - i,
    {
        assert(order::ints(order@)[i as int] == order@[i as int]);
        out.push(picked[order[i]]);
        i += 1;
    }
    assert(order::ints(out@) == reordered(order::ints(picked@), all)) by {
        assert forall|k: int| 0 <= k < order@.len() implies order::ints(out@)[k] == reordered(
            order::ints(picked@),
            all,
        )[k] by {
            assert(order::ints(order@)[k] == order@[k]);
        }
    }
    out
}

/// The jobs asked for, in the order of a job listing: their indices. `shares` are the
/// shares of the walltime that the jobs have used.
pub fn list_jobs(jobs: &Vec<Job>, owner: Option<&String>, shares: &Vec<Real>) -> (r: Vec<usize>)
    requires
        shares@.len() == jobs@.len(),
    ensures
        order::ints(r@) == listing(jobs@, opt_name(owner), shares@),
{
    let picked = choose_jobs(jobs, owner);
    let ghost all = order::ints(picked@);
    proof {
        law_indices(jobs@.len(), asked_for(jobs@, opt_name(owner)));
    }
    let mut keys: Vec<Key> = Vec::new();
    let mut k: usize = 0;
    while k < picked.len()
        invariant
            k <= picked@.len(),
            shares@.len() == jobs@.len(),
            all == order::ints(picked@),
            forall|p: int| 0 <= p < all.len() ==> 0 <= #[trigger] all[p] < jobs@.len(),
            keys@.len() == k,
            forall|p: int| 0 <= p < k ==> (#[trigger] keys@[p])@ == job_key(jobs@[all[p]], shares@[all[p]]),
        decreases picked@.len() - k,
    {
        assert(all[k as int] == picked@[k as int]);
        let j = &jobs[picked[k]];
        let weight: i64 = match j.walltime_frac() {
            Some(_) => shares[picked[k]].placed().0,
            None => (Real { bits: reals::BITS_MINUS_ONE }).placed().0,
        };
        keys.push(Key { rank: j.state.rank(), weight, name: j.short_id.clone() });
        k += 1;
    }
    assert(order::key_views(keys@) == all.map_values(|i: int| job_key(jobs@[i], shares@[i])));
    reorder(&picked, &keys)
}

/// The jobs asked for, in the order of a log listing: their indices.
pub fn list_logs(jobs: &Vec<Job>, owner: Option<&String>) -> (r: Vec<usize>)
    ensures
        order::ints(r@) == log_listing(jobs@, opt_name(owner)),
{
    let picked = choose_jobs(jobs, owner);
    let ghost all = order::ints(picked@);
    proof {
        law_indices(jobs@.len(), asked_for(jobs@, opt_name(owner)));
    }
    let mut keys: Vec<Key> = Vec::new();
    let mut k: usize = 0;
    while k < picked.len()
        invariant
            k <= picked@.len(),
            all == order::ints(picked@),
            forall|p: int| 0 <= p < all.len() ==> 0 <= #[trigger] all[p] < jobs@.len(),
            keys@.len() == k,
            forall|p: int| 0 <= p < k ==> (#[trigger] keys@[p])@ == log_key(jobs@[all[p]]),
        decreases picked@.len() - k,
    {
        assert(all[k as int] == picked@[k as int]);
        let j = &jobs[picked[k]];
        keys.push(Key { rank: j.state.rank(), weight: 0, name: j.short_id.clone() });
        k += 1;
    }
    assert(order::key_views(keys@) == all.map_values(|i: int| log_key(jobs@[i])));
    reorder(&picked, &keys)
}

/// Is `list` made of the wanted indices below `n`, each one once, so that none comes ahead
/// of one before it, and those of which neither comes ahead in their own order?
pub open spec fn lists(
    n: nat,
    wanted: spec_fn(int) -> bool,
    key: spec_fn(int) -> KeyView,
    list: Seq<int>,
) -> bool {
    &&& forall|p: int| 0 <= p < list.len() ==> 0 <= #[trigger] list[p] < n && wanted(list[p])
    &&& forall|i: int| 0 <= i < n && #[trigger] wanted(i) ==> list.contains(i)
    &&& forall|p: int, q: int|
        0 <= p < q < list.len() ==> #[trigger] list[p] != #[trigger] list[q] && !order::ahead(
            key(list[q]),
            key(list[p]),
        ) && (!order::ahead(key(list[p]), key(list[q])) ==> list[p] < list[q])
}

/// The wanted indices in the order of their keys.
pub proof fn law_reordered(n: nat, wanted: spec_fn(int) -> bool, key: spec_fn(int) -> KeyView)
    ensures
        lists(
            n,
            wanted,
            key,
            reordered(indices(n, wanted), indices(n, wanted).map_values(key)),
        ),
{
    let picked = indices(n, wanted);
    let keys = picked.map_values(key);
    let order = order::arranged(keys);
    let list = reordered(picked, keys);
    law_indices(n, wanted);
    order::law_arranged(keys);
    assert forall|p: int| 0 <= p < list.len() implies 0 <= #[trigger] list[p] < n && wanted(list[p]) by {
        assert(list[p] == picked[order[p]]);
    }
    assert forall|i: int| 0 <= i < n && #[trigger] wanted(i) implies list.contains(i) by {
        let m = choose|m: int| 0 <= m < picked.len() && picked[m] == i;
        let p = order::lemma_holds_all(keys, order, m);
        assert(list[p] == i);
    }
    assert forall|p: int, q: int| 0 <= p < q < list.len() implies #[trigger] list[p]
        != #[trigger] list[q] && !order::ahead(key(list[q]), key(list[p])) && (!order::ahead(
        key(list[p]),
        key(list[q]),
    ) ==> list[p] < list[q]) by {
        assert(order[p] != order[q]);
        assert(list[p] == picked[order[p]] && list[q] == picked[order[q]]);
        assert(keys[order[p]] == key(list[p]) && keys[order[q]] == key(list[q]));
        if order[q] < order[p] {
            assert(picked[order[q]] < picked[order[p]]);
        } else {
            assert(picked[order[p]] < picked[order[q]]);
        }
    }
}

/// A job listing shows every job asked for once and no other, active work first, then
/// closest to its walltime limit, then by id.
pub proof fn law_listing(jobs: Seq<Job>, owner: Option<Seq<char>>, shares: Seq<Real>)
    ensures
        lists(
            jobs.len(),
            asked_for(jobs, owner),
            |i: int| job_key(jobs[i], shares[i]),
            listing(jobs, owner, shares),
        ),
{
    law_reordered(
        jobs.len(),
        asked_for(jobs, owner),
        |i: int| job_key(jobs[i], shares[i]),
    );
}

/// A log listing shows every job asked for once and no other, active work first, then by
/// id.
pub proof fn law_log_listing(jobs: Seq<Job>, owner: Option<Seq<char>>)
    ensures
        lists(
            jobs.len(),
            asked_for(jobs, owner),
            |i: int| log_key(jobs[i]),
            log_listing(jobs, owner),
        ),
{
    law_reordered(jobs.len(), asked_for(jobs, owner), |i: int| log_key(jobs[i]));
}

} // verus!

//! Laws of the cluster's capacity: what counts, and what is next.

use crate::capacity::Resource;
use crate::cluster::{Cluster, Resv, ResvView, Tally};
use crate::job_laws::{has, lacks};
use crate::json::{Json, JsonView, NumberView};
use crate::capacity;
use crate::cluster;
use crate::digits;
use crate::fmt;
use crate::job_laws;
use crate::json;
use crate::text;
use vstd::prelude::*;

verus! {

// ---------------------------------------------------------------------------
// nodes
// ---------------------------------------------------------------------------

/// Does a node run jobs of the queue? Its `Qlist` names the queue between commas.
pub open spec fn in_queue(node: JsonView, queue: Seq<char>) -> bool {
    exists|available: JsonView, list: Seq<char>, i: int|
        #![trigger has(node, "resources_available"@, available), has(
            available,
            "Qlist"@,
            JsonView::Text(list),
        ), text::pieces(list, ',')[i]]
        has(node, "resources_available"@, available) && has(
            available,
            "Qlist"@,
            JsonView::Text(list),
        ) && 0 <= i < text::pieces(list, ',').len() && text::trimmed(text::pieces(list, ',')[i])
            == queue
}

/// Is a node out of service? Its state says that it is offline, or down.
pub open spec fn out_of_service(node: JsonView) -> bool {
    exists|s: Seq<char>| #[trigger]
        has(node, "state"@, JsonView::Text(s)) && (text::occurs(s, "offline"@) || text::occurs(
            s,
            "down"@,
        ))
}

/// Is `n` how much of `key` the group `group` of a node says; 0 where it says nothing?
pub open spec fn says_amount(node: JsonView, group: Seq<char>, key: Seq<char>, n: int) -> bool {
    ||| exists|g: JsonView, x: NumberView| #[trigger]
        has(node, group, g) && #[trigger] has(g, key, JsonView::Number(x)) && x.unsigned == Some(
            n as u64,
        ) && 0 <= n <= u64::MAX
    ||| n == 0 && (forall|g: JsonView, x: NumberView| #[trigger]
        has(node, group, g) && #[trigger] has(g, key, JsonView::Number(x)) ==> x.unsigned is None)
}

/// A node runs jobs of the queue that its list names.
proof fn lemma_in_queue(node: JsonView, queue: Seq<char>)
    requires
        queue.len() > 0,
    ensures
        cluster::serves(node, queue) == in_queue(node, queue),
{
    job_laws::law_member(node, "resources_available"@);
    let available = json::member_or_null(node, "resources_available"@);
    job_laws::law_member(available, "Qlist"@);
    let list = cluster::text_member(available, "Qlist"@);
    reveal_strlit("");
    text::lemma_first_at(""@, ',');
    assert(text::pieces(""@, ',') == seq![""@]);
    if cluster::serves(node, queue) {
        let queues = text::pieces(list, ',');
        let i = choose|i: int| 0 <= i < queues.len() && text::trimmed(#[trigger] queues[i]) == queue;
        if list.len() == 0 {
            assert(queues[i] == ""@);
            assert(text::trimmed(""@).len() == 0);
        }
        assert(json::text_in(json::member(available, "Qlist"@)) == Some(list));
        assert(has(available, "Qlist"@, JsonView::Text(list)));
        assert(has(node, "resources_available"@, available));
        assert(text::pieces(list, ',')[i] == queues[i]);
    }
    if in_queue(node, queue) {
        let (a, l, i) = choose|available: JsonView, list: Seq<char>, i: int|
            #![trigger has(node, "resources_available"@, available), has(
                available,
                "Qlist"@,
                JsonView::Text(list),
            ), text::pieces(list, ',')[i]]
            has(node, "resources_available"@, available) && has(
                available,
                "Qlist"@,
                JsonView::Text(list),
            ) && 0 <= i < text::pieces(list, ',').len() && text::trimmed(
                text::pieces(list, ',')[i],
            ) == queue;
        assert(a == available && l == list);
    }
}

/// A node is out of service where its state says so.
proof fn lemma_out_of_service(node: JsonView)
    ensures
        cluster::is_offline(node) == out_of_service(node),
{
    job_laws::law_member(node, "state"@);
    let s = cluster::text_member(node, "state"@);
    reveal_strlit("");
    reveal_strlit("offline");
    reveal_strlit("down");
    if cluster::is_offline(node) {
        if json::text_in(json::member(node, "state"@)) is None {
            assert(s == ""@);
            assert(false);
        }
        assert(has(node, "state"@, JsonView::Text(s)));
    }
}

/// What a group of a node says is its amount.
proof fn lemma_says_amount(node: JsonView, group: Seq<char>, key: Seq<char>)
    ensures
        forall|n: int| #[trigger]
            says_amount(node, group, key, n) ==> n == cluster::amount(node, group, key),
        says_amount(node, group, key, cluster::amount(node, group, key) as int),
{
    job_laws::law_member(node, group);
    let g = json::member_or_null(node, group);
    job_laws::law_member(g, key);
    let n = cluster::amount(node, group, key) as int;
    match json::member(g, key) {
        Some(JsonView::Number(x)) => {
            assert(has(g, key, JsonView::Number(x)));
            assert(has(node, group, g));
        },
        _ => {},
    }
    assert forall|m: int| #[trigger] says_amount(node, group, key, m) implies m == n by {
        if json::member(g, key) matches Some(JsonView::Number(x)) && x.unsigned is Some {
            let x = json::member(g, key)->0->Number_0;
            assert(has(node, group, g) && has(g, key, JsonView::Number(x)));
        }
    }
}

/// A node that is not of the queue does not count; one that is out of service counts as such
/// and offers nothing, neither idle nor busy, neither GPUs nor cores; any other one counts what
/// it has, what of that is not taken, and as idle where nothing is taken.
pub proof fn law_node(
    node: JsonView,
    queue: Seq<char>,
    gpus: int,
    cpus: int,
    gpus_taken: int,
    cpus_taken: int,
)
    requires
        queue.len() > 0,
        says_amount(node, "resources_available"@, "ngpus"@, gpus),
        says_amount(node, "resources_available"@, "ncpus"@, cpus),
        says_amount(node, "resources_assigned"@, "ngpus"@, gpus_taken),
        says_amount(node, "resources_assigned"@, "ncpus"@, cpus_taken),
    ensures
        ({
            let t = cluster::node_tally(node, queue);
            let counted = in_queue(node, queue);
            let up = counted && !out_of_service(node);
            let idle = up && gpus_taken == 0 && cpus_taken == 0;
            &&& t.pool == (if counted { 1int } else { 0 })
            &&& t.offline == (if counted && out_of_service(node) { 1int } else { 0 })
            &&& t.idle == (if idle { 1int } else { 0 })
            &&& t.busy == (if up && !idle { 1int } else { 0 })
            &&& t.gpus_total == (if up { gpus } else { 0 })
            &&& t.cpus_total == (if up { cpus } else { 0 })
            &&& up && gpus_taken <= gpus ==> t.gpus_free + gpus_taken == gpus
            &&& up && cpus_taken <= cpus ==> t.cpus_free + cpus_taken == cpus
            &&& !up || gpus_taken > gpus ==> t.gpus_free == 0
            &&& !up || cpus_taken > cpus ==> t.cpus_free == 0
            &&& t.free_gpus_on_busy == (if up && !idle { t.gpus_free } else { 0 })
        }),
{
    lemma_in_queue(node, queue);
    lemma_out_of_service(node);
    lemma_says_amount(node, "resources_available"@, "ngpus"@);
    lemma_says_amount(node, "resources_available"@, "ncpus"@);
    lemma_says_amount(node, "resources_assigned"@, "ngpus"@);
    lemma_says_amount(node, "resources_assigned"@, "ncpus"@);
}

/// What two lists of nodes count together is what each counts.
pub proof fn law_counts_add_up(
    a: Seq<(Seq<char>, JsonView)>,
    b: Seq<(Seq<char>, JsonView)>,
    queue: Seq<char>,
)
    ensures
        ({
            let s = cluster::tally(a, queue);
            let t = cluster::tally(b, queue);
            cluster::tally(a + b, queue) == Tally {
                pool: s.pool + t.pool,
                offline: s.offline + t.offline,
                gpus_total: s.gpus_total + t.gpus_total,
                gpus_free: s.gpus_free + t.gpus_free,
                cpus_total: s.cpus_total + t.cpus_total,
                cpus_free: s.cpus_free + t.cpus_free,
                idle: s.idle + t.idle,
                busy: s.busy + t.busy,
                free_gpus_on_busy: s.free_gpus_on_busy + t.free_gpus_on_busy,
            }
        }),
    decreases b.len(),
{
    if b.len() == 0 {
        assert(a + b == a);
    } else {
        assert((a + b).drop_last() == a + b.drop_last());
        law_counts_add_up(a, b.drop_last(), queue);
    }
}

/// What one node counts alone.
proof fn lemma_one_node(name: Seq<char>, node: JsonView, queue: Seq<char>)
    ensures
        cluster::tally(seq![(name, node)], queue) == cluster::node_tally(node, queue),
{
    let one = seq![(name, node)];
    assert(one.drop_last() == Seq::<(Seq<char>, JsonView)>::empty());
    reveal_with_fuel(cluster::tally, 2);
}

/// A node that is out of service takes nothing but its number: the capacity with it is that
/// without it, with one node more in the pool and offline, wherever it stands in the list.
pub proof fn law_down_nodes_offer_nothing(
    before: Seq<(Seq<char>, JsonView)>,
    name: Seq<char>,
    node: JsonView,
    behind: Seq<(Seq<char>, JsonView)>,
    queue: Seq<char>,
)
    requires
        queue.len() > 0,
        in_queue(node, queue),
        out_of_service(node),
    ensures
        ({
            let with = cluster::tally(before + seq![(name, node)] + behind, queue);
            let without = cluster::tally(before + behind, queue);
            with == Tally { pool: without.pool + 1, offline: without.offline + 1, ..without }
        }),
{
    lemma_one_node(name, node, queue);
    lemma_in_queue(node, queue);
    lemma_out_of_service(node);
    law_counts_add_up(before, seq![(name, node)], queue);
    law_counts_add_up(before + seq![(name, node)], behind, queue);
    law_counts_add_up(before, behind, queue);
}

// ---------------------------------------------------------------------------
// the whole cluster
// ---------------------------------------------------------------------------

/// Does `c` hold the sums over the nodes, as 64-bit words?
pub open spec fn holds_sums(c: Cluster, t: Tally) -> bool {
    &&& c.pool == t.pool
    &&& c.offline == t.offline
    &&& c.nodes_idle == t.idle
    &&& c.nodes_busy == t.busy
    &&& t.gpus_total <= u64::MAX ==> c.gpus_total == t.gpus_total && c.gpus_free == t.gpus_free
        && c.free_gpus_on_busy == t.free_gpus_on_busy
    &&& t.cpus_total <= u64::MAX ==> c.cpus_total == t.cpus_total && c.cpus_free == t.cpus_free
}

/// The capacity is that of the nodes of the server's default queue, or of `abciq`.
pub proof fn law_capacity(
    sv: &Json,
    nv: &Json,
    qv: Option<&Json>,
    rstat: Option<&[u8]>,
    tz: i64,
    r: Result<Cluster, String>,
    nodes: Seq<(Seq<char>, JsonView)>,
)
    requires
        call_ensures(cluster::fetch, (sv, nv, qv, rstat, tz), r),
        has(nv@, "nodes"@, JsonView::Object(nodes)),
    ensures
        r matches Ok(c) && holds_sums(c, cluster::tally(nodes, c.queue@)),
        forall|servers: Seq<(Seq<char>, JsonView)>, q: Seq<char>| #[trigger]
            has(sv@, "Server"@, JsonView::Object(servers)) && servers.len() > 0 && #[trigger] has(
                servers[0].1,
                "default_queue"@,
                JsonView::Text(q),
            ) ==> r->Ok_0.queue@ == q,
        lacks(sv@, "Server"@) ==> r->Ok_0.queue@ == "abciq"@,
        forall|t: Seq<char>| #[trigger]
            has(sv@, "pbs_server"@, JsonView::Text(t)) ==> r->Ok_0.server@ == t,
        forall|n: NumberView| #[trigger]
            has(sv@, "timestamp"@, JsonView::Number(n)) && n.signed is Some
                ==> Some(r->Ok_0.timestamp) == n.signed,
{
    job_laws::law_member(nv@, "nodes"@);
    job_laws::law_member(sv@, "Server"@);
    job_laws::law_member(sv@, "pbs_server"@);
    job_laws::law_member(sv@, "timestamp"@);
    let c = r->Ok_0;
    cluster::lemma_tally(nodes, c.queue@);
    assert forall|servers: Seq<(Seq<char>, JsonView)>, q: Seq<char>| #[trigger]
        has(sv@, "Server"@, JsonView::Object(servers)) && servers.len() > 0 && #[trigger] has(
            servers[0].1,
            "default_queue"@,
            JsonView::Text(q),
        ) implies c.queue@ == q by {
        job_laws::law_member(servers[0].1, "default_queue"@);
    }
}

/// Without a list of nodes there is an error.
pub proof fn law_no_nodes(
    sv: &Json,
    nv: &Json,
    qv: Option<&Json>,
    rstat: Option<&[u8]>,
    tz: i64,
    r: Result<Cluster, String>,
)
    requires
        call_ensures(cluster::fetch, (sv, nv, qv, rstat, tz), r),
        forall|nodes: Seq<(Seq<char>, JsonView)>| !#[trigger]
            has(nv@, "nodes"@, JsonView::Object(nodes)),
    ensures
        r is Err,
{
    job_laws::law_member(nv@, "nodes"@);
    if let Some(JsonView::Object(nodes)) = json::member(nv@, "nodes"@) {
        assert(has(nv@, "nodes"@, JsonView::Object(nodes)));
    }
}

/// Running, queued and held jobs are those that the server counts under these names; the limit
/// of a user is that of `spot_rt_QF`, and the limit of all that of `nodect`; and the next window
/// is the next reservation after the server's time.
pub proof fn law_counts_and_limits(
    sv: &Json,
    nv: &Json,
    qv: Option<&Json>,
    rstat: Option<&[u8]>,
    tz: i64,
    r: Result<Cluster, String>,
)
    requires
        call_ensures(cluster::fetch, (sv, nv, qv, rstat, tz), r),
        r is Ok,
    ensures
        forall|servers: Seq<(Seq<char>, JsonView)>, t: Seq<char>| #[trigger]
            has(sv@, "Server"@, JsonView::Object(servers)) && servers.len() > 0 && #[trigger] has(
                servers[0].1,
                "state_count"@,
                JsonView::Text(t),
            ) ==> {
                let c = r->Ok_0;
                let f = text::words(t);
                &&& c.running == cluster::count_named(f, "Running"@)
                &&& c.queued == cluster::count_named(f, "Queued"@)
                &&& c.held == cluster::count_named(f, "Held"@)
            },
        qv is None ==> r->Ok_0.limit_user_nodes is None && r->Ok_0.limit_cluster_nodect is None,
        forall|queues: Seq<(Seq<char>, JsonView)>, limits: JsonView, t: Seq<char>|
            #![trigger has(qv->0@, "Queue"@, JsonView::Object(queues)), has(
                queues[0].1,
                "max_run_res"@,
                limits,
            ), has(limits, "spot_rt_QF"@, JsonView::Text(t))]
            qv is Some && has(qv->0@, "Queue"@, JsonView::Object(queues)) && queues.len() > 0
                && has(queues[0].1, "max_run_res"@, limits) && has(
                limits,
                "spot_rt_QF"@,
                JsonView::Text(t),
            ) ==> r->Ok_0.limit_user_nodes == cluster::limit_in(t),
        forall|queues: Seq<(Seq<char>, JsonView)>, limits: JsonView, t: Seq<char>|
            #![trigger has(qv->0@, "Queue"@, JsonView::Object(queues)), has(
                queues[0].1,
                "max_run_res"@,
                limits,
            ), has(limits, "nodect"@, JsonView::Text(t))]
            qv is Some && has(qv->0@, "Queue"@, JsonView::Object(queues)) && queues.len() > 0
                && has(queues[0].1, "max_run_res"@, limits) && has(
                limits,
                "nodect"@,
                JsonView::Text(t),
            ) ==> r->Ok_0.limit_cluster_nodect == cluster::limit_in(t),
        rstat is None ==> r->Ok_0.next_resv is None,
        rstat matches Some(b) ==> cluster::opt_resv(r->Ok_0.next_resv) == cluster::soonest(
            cluster::reservations(text::utf8_lossy(b@), tz as int),
            r->Ok_0.timestamp as int,
        ),
{
    job_laws::law_member(sv@, "Server"@);
    assert forall|servers: Seq<(Seq<char>, JsonView)>, t: Seq<char>| #[trigger]
        has(sv@, "Server"@, JsonView::Object(servers)) && servers.len() > 0 && #[trigger] has(
            servers[0].1,
            "state_count"@,
            JsonView::Text(t),
        ) implies {
        let c = r->Ok_0;
        let f = text::words(t);
        &&& c.running == cluster::count_named(f, "Running"@)
        &&& c.queued == cluster::count_named(f, "Queued"@)
        &&& c.held == cluster::count_named(f, "Held"@)
    } by {
        job_laws::law_member(servers[0].1, "state_count"@);
    }
    if let Some(q) = qv {
        job_laws::law_member(q@, "Queue"@);
        let queue = cluster::first_value(q@, "Queue"@);
        job_laws::law_member(queue, "max_run_res"@);
        let limits = json::member_or_null(queue, "max_run_res"@);
        job_laws::law_member(limits, "spot_rt_QF"@);
        job_laws::law_member(limits, "nodect"@);
    }
}

// ---------------------------------------------------------------------------
// counts and limits
// ---------------------------------------------------------------------------

/// The field `key:n`.
pub open spec fn field(key: Seq<char>, n: nat) -> Seq<char> {
    key + seq![':'] + digits::decimal(n)
}

/// A text before the first `c` and one behind it are cut there.
proof fn lemma_cut(a: Seq<char>, c: char, b: Seq<char>)
    requires
        !a.contains(c),
    ensures
        text::cut(a + seq![c] + b, c) == Some((a, b)),
{
    let s = a + seq![c] + b;
    text::lemma_first_at(s, c);
    let n = text::first_at(s, c);
    assert(s[a.len() as int] == c);
    if n < a.len() {
        assert(a.contains(a[n]));
    }
    assert(s.take(n) == a);
    assert(s.skip(n + 1) == b);
}

/// Where no field is of a key, its count is 0; and the first field of a key is its count.
proof fn lemma_count_named(f: Seq<Seq<char>>, key: Seq<char>, i: int, n: u64)
    requires
        !key.contains(':'),
        0 <= i <= f.len(),
        forall|k: int| 0 <= k < i ==> !text::begins(#[trigger] f[k], key + seq![':']),
        i < f.len() ==> f[i] == field(key, n as nat),
        i == f.len() ==> n == 0,
    ensures
        cluster::count_named(f, key) == n,
    decreases f.len(),
{
    if f.len() > 0 {
        if i == 0 {
            lemma_cut(key, ':', digits::decimal(n as nat));
            digits::law_read_back(n as nat, u64::MAX as nat);
        } else {
            let rest = f.skip(1);
            assert(!text::begins(f[0], key + seq![':']));
            if let Some(kv) = text::cut(f[0], ':') {
                text::lemma_first_at(f[0], ':');
                if kv.0 == key {
                    assert(f[0].take(key.len() as int + 1) == key + seq![':']);
                }
            }
            assert forall|k: int| 0 <= k < i - 1 implies !text::begins(
                #[trigger] rest[k],
                key + seq![':'],
            ) by {
                assert(rest[k] == f[k + 1]);
            }
            if i < f.len() {
                assert(rest[i - 1] == f[i]);
            }
            lemma_count_named(rest, key, i - 1, n);
        }
    }
}

/// The count of a state is that of the first field with its name; 0 where there is none.
pub proof fn law_state_count(s: &str, key: &str, r: u64, i: int, n: u64)
    requires
        call_ensures(cluster::state_count, (s, key), r),
        !key@.contains(':'),
        0 <= i <= text::words(s@).len(),
        forall|k: int|
            0 <= k < i ==> !text::begins(#[trigger] text::words(s@)[k], key@ + seq![':']),
        i < text::words(s@).len() ==> text::words(s@)[i] == field(key@, n as nat),
        i == text::words(s@).len() ==> n == 0,
    ensures
        r == n,
{
    lemma_count_named(text::words(s@), key@, i, n);
}

/// The text behind the last equals sign.
proof fn lemma_behind(a: Seq<char>, t: Seq<char>)
    requires
        !t.contains('='),
    ensures
        cluster::behind_equals(a + seq!['='] + t) == Some(t),
    decreases t.len(),
{
    let s = a + seq!['='] + t;
    if t.len() == 0 {
        assert(s.last() == '=');
        assert(t == Seq::<char>::empty());
    } else {
        assert(t.contains(t.last()));
        assert(s.last() == t.last());
        assert(s.drop_last() == a + seq!['='] + t.drop_last());
        assert forall|c: char| t.drop_last().contains(c) implies t.contains(c) by {
            let k = choose|k: int| 0 <= k < t.len() - 1 && t.drop_last()[k] == c;
            assert(t[k] == c);
        }
        lemma_behind(a, t.drop_last());
        assert(t.drop_last().push(t.last()) == t);
    }
}

/// Without an equals sign nothing stands behind one.
proof fn lemma_no_equals(s: Seq<char>)
    requires
        !s.contains('='),
    ensures
        cluster::behind_equals(s) is None,
    decreases s.len(),
{
    if s.len() > 0 {
        assert(s.contains(s.last()));
        assert forall|c: char| s.drop_last().contains(c) implies s.contains(c) by {
            let k = choose|k: int| 0 <= k < s.len() - 1 && s.drop_last()[k] == c;
            assert(s[k] == c);
        }
        lemma_no_equals(s.drop_last());
    }
}

/// The digits at the start of a text that goes on with something else.
proof fn lemma_leading(d: Seq<char>, rest: Seq<char>)
    requires
        digits::all_digits(d),
        rest.len() > 0 ==> !digits::is_digit(rest[0]),
    ensures
        fmt::leading_digits(d + rest) == d.len(),
    decreases d.len(),
{
    if d.len() == 0 {
        assert(d + rest == rest);
    } else {
        assert((d + rest)[0] == d[0]);
        assert((d + rest).skip(1) == d.skip(1) + rest);
        assert forall|i: int| 0 <= i < d.skip(1).len() implies digits::is_digit(
            #[trigger] d.skip(1)[i],
        ) by {
            assert(d[i + 1] == d.skip(1)[i]);
        }
        lemma_leading(d.skip(1), rest);
    }
}

/// A limit is the number behind the last equals sign, up to what is no digit; without an equals
/// sign there is none.
pub proof fn law_limit(s: &str, r: Option<u64>)
    requires
        call_ensures(cluster::limit_value, (s,), r),
    ensures
        !s@.contains('=') ==> r is None,
        forall|a: Seq<char>, n: u64, b: Seq<char>|
            s@ == #[trigger] limited(a, n, b) && !b.contains('=') && (b.len() > 0
                ==> !digits::is_digit(b[0])) ==> r == Some(n),
{
    if !s@.contains('=') {
        lemma_no_equals(s@);
    }
    assert forall|a: Seq<char>, n: u64, b: Seq<char>|
        s@ == #[trigger] limited(a, n, b) && !b.contains('=') && (b.len() > 0
            ==> !digits::is_digit(b[0])) implies r == Some(n) by {
        let d = digits::decimal(n as nat);
        let t = d + b;
        digits::lemma_decimal_digits(n as nat);
        if t.contains('=') {
            let k = choose|k: int| 0 <= k < t.len() && t[k] == '=';
            if k < d.len() {
                assert(digits::is_digit(d[k]));
            } else {
                assert(b[k - d.len()] == '=');
            }
        }
        assert(limited(a, n, b) == a + seq!['='] + t);
        lemma_behind(a, t);
        lemma_leading(d, b);
        assert(t.take(d.len() as int) == d);
        digits::law_read_back(n as nat, u64::MAX as nat);
    }
}

/// A limit of `n`, between other texts.
pub open spec fn limited(a: Seq<char>, n: u64, b: Seq<char>) -> Seq<char> {
    a + seq!['='] + digits::decimal(n as nat) + b
}

// ---------------------------------------------------------------------------
// reservations
// ---------------------------------------------------------------------------

/// The attribute line `key = value`.
pub open spec fn attribute_line(key: Seq<char>, value: Seq<char>) -> Seq<char> {
    key + seq!['='] + value
}

/// A line that begins with `Resv ID:` begins another reservation; the one before it is complete.
pub proof fn law_resv_begins(lines: Seq<Seq<char>>, line: Seq<char>, tz: int)
    requires
        text::begins(text::trimmed(line), "Resv ID:"@),
    ensures
        ({
            let was = cluster::described(lines, tz);
            let is = cluster::described(lines.push(line), tz);
            &&& is.0 == was.0.push(was.1)
            &&& is.1.name.len() == 0 && is.1.owner.len() == 0
            &&& is.1.start == 0 && is.1.end == 0 && is.1.nodect == 0
        }),
{
    assert(lines.push(line).drop_last() == lines);
}

/// A line with an attribute sets it, and nothing else: the name, the owner, the start, the end
/// or the node count, by the attribute's name.
pub proof fn law_resv_attribute(
    lines: Seq<Seq<char>>,
    line: Seq<char>,
    tz: int,
    key: Seq<char>,
    value: Seq<char>,
)
    requires
        !key.contains('='),
        text::trimmed(line) == attribute_line(key, value),
        !text::begins(text::trimmed(line), "Resv ID:"@),
    ensures
        ({
            let was = cluster::described(lines, tz);
            let is = cluster::described(lines.push(line), tz);
            let k = text::trimmed(key);
            let v = text::trimmed(value);
            &&& is.0 == was.0
            &&& is.1.name == (if k == "Reserve_Name"@ { v } else { was.1.name })
            &&& is.1.owner == (if k == "Reserve_Owner"@ { v } else { was.1.owner })
            &&& k != "reserve_start"@ ==> is.1.start == was.1.start
            &&& k == "reserve_start"@ ==> is.1.start == (match fmt::pbs_date(v, tz) {
                Some(t) => t as int,
                None => 0,
            })
            &&& k != "reserve_end"@ ==> is.1.end == was.1.end
            &&& k == "reserve_end"@ ==> is.1.end == (match fmt::pbs_date(v, tz) {
                Some(t) => t as int,
                None => 0,
            })
            &&& k != "Resource_List.nodect"@ ==> is.1.nodect == was.1.nodect
            &&& forall|n: u64|
                k == "Resource_List.nodect"@ && v == #[trigger] digits::decimal(n as nat)
                    ==> is.1.nodect == n
        }),
{
    assert(lines.push(line).drop_last() == lines);
    lemma_cut(key, '=', value);
    let k = text::trimmed(key);
    let v = text::trimmed(value);
    reveal_strlit("Reserve_Name");
    reveal_strlit("Reserve_Owner");
    reveal_strlit("reserve_start");
    reveal_strlit("reserve_end");
    reveal_strlit("Resource_List.nodect");
    assert("Reserve_Name"@.len() == 12 && "Reserve_Owner"@.len() == 13
        && "reserve_start"@.len() == 13 && "reserve_end"@.len() == 11
        && "Resource_List.nodect"@.len() == 20);
    assert("Reserve_Owner"@[0] == 'R' && "reserve_start"@[0] == 'r');
    assert forall|n: u64|
        k == "Resource_List.nodect"@ && v == #[trigger] digits::decimal(n as nat) implies
        cluster::described(lines.push(line), tz).1.nodect == n by {
        digits::law_read_back(n as nat, u64::MAX as nat);
    }
}

/// Is a reservation one of root: is `root` what stands before the `@` of its owner?
pub open spec fn of_root(r: ResvView) -> bool {
    job_laws::is_head(seq!['r', 'o', 'o', 't'], r.owner, '@')
}

/// A reservation is one of root by its owner.
pub(crate) proof fn lemma_of_root(r: ResvView)
    ensures
        cluster::by_root(r) == of_root(r),
{
    reveal_strlit("root");
    let root = seq!['r', 'o', 'o', 't'];
    assert("root"@ == root);
    text::lemma_first_at(r.owner, '@');
    let n = text::first_at(r.owner, '@');
    let h = text::before(r.owner, '@');
    assert(root[0] == 'r' && root[1] == 'o' && root[2] == 'o' && root[3] == 't');
    assert(!root.contains('@'));
    if h == root {
        if n == r.owner.len() {
            assert(r.owner == h);
        }
        assert(of_root(r));
    }
    if of_root(r) {
        assert forall|i: int| 0 <= i < 4 implies r.owner[i] != '@' by {
            assert(r.owner.take(4)[i] == r.owner[i]);
            assert(root.contains(root[i]));
        }
        assert(n >= 4);
        if r.owner.len() > 4 {
            assert(n == 4);
        }
        assert(h == root);
    }
}

/// The next window is a reservation of root that starts after the given time, and no other one
/// of root that starts after it starts sooner; there is none only where no such one is listed.
/// Reservations of others do not matter.
pub proof fn law_next_window(
    stdout: &[u8],
    now: i64,
    tz: i64,
    r: Option<Resv>,
)
    requires
        call_ensures(cluster::next_reservation, (stdout, now, tz), r),
    ensures
        ({
            let all = cluster::reservations(text::utf8_lossy(stdout@), tz as int);
            &&& r matches Some(w) ==> all.contains(w@) && of_root(w@) && w.start > now
            &&& forall|i: int|
                0 <= i < all.len() && of_root(#[trigger] all[i]) && all[i].start > now ==> (
                r matches Some(w) && w.start <= all[i].start)
        }),
{
    let all = cluster::reservations(text::utf8_lossy(stdout@), tz as int);
    cluster::law_soonest(all, now as int);
    if let Some(w) = r {
        lemma_of_root(w@);
    }
    assert forall|i: int|
        0 <= i < all.len() && of_root(#[trigger] all[i]) && all[i].start > now implies (
    r matches Some(w) && w.start <= all[i].start) by {
        lemma_of_root(all[i]);
    }
}

// ---------------------------------------------------------------------------
// what is shown of it
// ---------------------------------------------------------------------------

/// A user could start on `n` nodes now exactly where that many are idle and the user's limit,
/// where there is one, allows it.
pub proof fn law_fits(c: &Cluster, r: u64, n: u64)
    requires
        call_ensures(capacity::fits_now, (c,), r),
    ensures
        n <= r <==> n <= c.nodes_idle && (c.limit_user_nodes matches Some(cap) ==> n <= cap),
{
}

/// What is in use and what is free make up what there is; nodes in use are the busy ones of
/// those that are not offline.
pub proof fn law_in_use(c: &Cluster, what: &Resource, r: (u64, u64))
    requires
        call_ensures(capacity::in_use, (c, what), r),
    ensures
        *what is Gpus ==> r.1 == c.gpus_total && (c.gpus_free <= c.gpus_total ==> r.0 + c.gpus_free
            == c.gpus_total),
        *what is Cpus ==> r.1 == c.cpus_total && (c.cpus_free <= c.cpus_total ==> r.0 + c.cpus_free
            == c.cpus_total),
        *what is Nodes ==> r.0 == c.nodes_busy && (c.offline <= c.pool ==> r.1 + c.offline
            == c.pool),
{
}

/// The nodes that can run jobs and those that are offline are all.
pub proof fn law_usable(c: &Cluster, r: usize)
    requires
        call_ensures(Cluster::usable, (c,), r),
        c.offline <= c.pool,
    ensures
        r + c.offline == c.pool,
{
}

} // verus!

//! Cluster-wide capacity: what is free right now, and what would start.
//!
//! Node data comes from the **stock** `/opt/pbs/bin/pbsnodes`: the
//! `/usr/local/bin` wrapper refuses to run on the login node. Two traps make a
//! raw node count wrong, and both are handled here:
//!
//! 1. A node only runs a job if its `resources_available.Qlist` contains the
//!    queue the job is submitted to (`abciq`), so nodes dedicated elsewhere are excluded.
//! 2. The server's `resources_assigned.ngpus` reads 0 because GPUs are tracked
//!    per vnode, so the per-node sum is the authority.

use crate::json::{Json, JsonView};
use crate::digits;
use crate::fmt;
use crate::json;
use crate::pbs;
use crate::text;
use crate::wrap;
use vstd::prelude::*;

verus! {

/// A reservation of nodes.
pub struct Resv {
    pub name: String,
    pub owner: String,
    pub start: i64,
    pub end: i64,
    pub nodect: u64,
}

/// The capacity of a cluster.
pub struct Cluster {
    pub server: String,
    pub queue: String,
    pub timestamp: i64,
    pub pool: usize,
    pub offline: usize,
    pub gpus_total: u64,
    pub gpus_free: u64,
    pub cpus_total: u64,
    pub cpus_free: u64,
    pub nodes_idle: usize,
    pub nodes_busy: usize,
    pub free_gpus_on_busy: u64,
    pub running: u64,
    pub queued: u64,
    pub held: u64,
    pub limit_user_nodes: Option<u64>,
    pub limit_cluster_nodect: Option<u64>,
    pub next_resv: Option<Resv>,
}

impl Cluster {
    /// The number of nodes that can run jobs.
    pub fn usable(&self) -> (r: usize)
        ensures
            r == (if self.pool > self.offline {
                self.pool - self.offline
            } else {
                0
            }),
    {
        self.pool.saturating_sub(self.offline)
    }
}

/// The `pbsnodes` to run: the stock binary where it is there.
pub fn pbsnodes_bin(stock_exists: bool) -> (r: String)
    ensures
        r@ == (if stock_exists {
            "/opt/pbs/bin/pbsnodes"@
        } else {
            "pbsnodes"@
        }),
{
    if stock_exists {
        "/opt/pbs/bin/pbsnodes".to_owned()
    } else {
        "pbsnodes".to_owned()
    }
}

/// The arguments of `qstat` that ask for the server.
pub fn server_args() -> (r: Vec<String>)
    ensures
        text::texts(r@) == seq!["-B"@, "-f"@, "-F"@, "json"@],
{
    let mut args: Vec<String> = Vec::new();
    args.push("-B".to_owned());
    args.push("-f".to_owned());
    args.push("-F".to_owned());
    args.push("json".to_owned());
    args
}

/// The arguments of `pbsnodes` that ask for all nodes.
pub fn nodes_args() -> (r: Vec<String>)
    ensures
        text::texts(r@) == seq!["-a"@, "-F"@, "json"@],
{
    let mut args: Vec<String> = Vec::new();
    args.push("-a".to_owned());
    args.push("-F".to_owned());
    args.push("json".to_owned());
    args
}

/// The arguments of `qstat` that ask for a queue.
pub fn queue_args(queue: &str) -> (r: Vec<String>)
    ensures
        text::texts(r@) == seq!["-Q"@, "-f"@, queue@, "-F"@, "json"@],
{
    let mut args: Vec<String> = Vec::new();
    args.push("-Q".to_owned());
    args.push("-f".to_owned());
    args.push(queue.to_owned());
    args.push("-F".to_owned());
    args.push("json".to_owned());
    args
}

/// The arguments of `pbs_rstat` that ask for all reservations in full.
pub fn rstat_args() -> (r: Vec<String>)
    ensures
        text::texts(r@) == seq!["-F"@],
{
    let mut args: Vec<String> = Vec::new();
    args.push("-F".to_owned());
    args
}

/// Reads the JSON document that a command printed.
pub fn json_cmd(bin: &str, stdout: &[u8], stderr: &[u8]) -> (r: Result<Json, String>)
    ensures
        ({
            let out = text::utf8_lossy(stdout@);
            let err = text::trimmed(text::utf8_lossy(stderr@));
            if text::trimmed(out).len() == 0 {
                r matches Err(e) && e@ == (if err.len() == 0 {
                    bin@ + " returned nothing"@
                } else {
                    err
                })
            } else {
                match json::json_read(out) {
                    Ok(j) => r matches Ok(v) && v@ == j,
                    Err(e) => r matches Err(m) && m@ == "could not parse "@ + bin@ + " JSON: "@ + e,
                }
            }
        }),
{
    let out = text::lossy(stdout);
    if text::trim(out.as_str()).as_str().is_empty() {
        let err = text::trim(text::lossy(stderr).as_str());
        return Err(
            if err.as_str().is_empty() {
                let mut m = bin.to_owned();
                m.append(" returned nothing");
                m
            } else {
                err
            },
        );
    }
    match json::parse(out.as_str()) {
        Ok(j) => Ok(j),
        Err(e) => {
            let mut m = "could not parse ".to_owned();
            m.append(bin);
            m.append(" JSON: ");
            m.append(e.as_str());
            Err(m)
        },
    }
}

// ---------------------------------------------------------------------------
// nodes
// ---------------------------------------------------------------------------

/// The count `key` of the group `group` of a node; 0 where it is missing or a placeholder.
pub open spec fn amount(node: JsonView, group: Seq<char>, key: Seq<char>) -> u64 {
    match json::unsigned_in(json::member(json::member_or_null(node, group), key)) {
        Some(n) => n,
        None => 0,
    }
}

/// Sub-object lookup that tolerates PBS's `<various>` string placeholders.
pub fn num(v: &Json, group: &str, key: &str) -> (r: u64)
    ensures
        r == amount(v@, group@, key@),
{
    match json::as_unsigned(json::member_of(v.get(group), key)) {
        Some(n) => n,
        None => 0,
    }
}

/// The text of the member `key`, or the empty text.
pub open spec fn text_member(j: JsonView, key: Seq<char>) -> Seq<char> {
    match json::text_in(json::member(j, key)) {
        Some(t) => t,
        None => ""@,
    }
}

/// Does a node run jobs of `queue`?
pub open spec fn serves(node: JsonView, queue: Seq<char>) -> bool {
    let queues = text::pieces(text_member(json::member_or_null(node, "resources_available"@), "Qlist"@), ',');
    exists|i: int| 0 <= i < queues.len() && text::trimmed(#[trigger] queues[i]) == queue
}

/// Is a node out of service?
pub open spec fn is_offline(node: JsonView) -> bool {
    let state = text_member(node, "state"@);
    text::occurs(state, "offline"@) || text::occurs(state, "down"@)
}

/// What is left of `available` once `assigned` are taken.
pub open spec fn free(available: u64, assigned: u64) -> int {
    if available > assigned {
        available - assigned
    } else {
        0
    }
}

/// Sums over nodes.
pub struct Tally {
    pub pool: int,
    pub offline: int,
    pub gpus_total: int,
    pub gpus_free: int,
    pub cpus_total: int,
    pub cpus_free: int,
    pub idle: int,
    pub busy: int,
    pub free_gpus_on_busy: int,
}

/// What one node adds to the sums.
pub open spec fn node_tally(node: JsonView, queue: Seq<char>) -> Tally {
    let none = Tally {
        pool: 0,
        offline: 0,
        gpus_total: 0,
        gpus_free: 0,
        cpus_total: 0,
        cpus_free: 0,
        idle: 0,
        busy: 0,
        free_gpus_on_busy: 0,
    };
    let gpus = amount(node, "resources_available"@, "ngpus"@);
    let cpus = amount(node, "resources_available"@, "ncpus"@);
    let gpus_taken = amount(node, "resources_assigned"@, "ngpus"@);
    let cpus_taken = amount(node, "resources_assigned"@, "ncpus"@);
    let is_idle = gpus_taken == 0 && cpus_taken == 0;
    if !serves(node, queue) {
        none
    } else if is_offline(node) {
        Tally { pool: 1, offline: 1, ..none }
    } else {
        Tally {
            pool: 1,
            offline: 0,
            gpus_total: gpus as int,
            gpus_free: free(gpus, gpus_taken),
            cpus_total: cpus as int,
            cpus_free: free(cpus, cpus_taken),
            idle: if is_idle {
                1
            } else {
                0
            },
            busy: if is_idle {
                0
            } else {
                1
            },
            free_gpus_on_busy: if is_idle {
                0
            } else {
                free(gpus, gpus_taken)
            },
        }
    }
}

/// The sums over the nodes.
pub open spec fn tally(nodes: Seq<(Seq<char>, JsonView)>, queue: Seq<char>) -> Tally
    decreases nodes.len(),
{
    if nodes.len() == 0 {
        Tally {
            pool: 0,
            offline: 0,
            gpus_total: 0,
            gpus_free: 0,
            cpus_total: 0,
            cpus_free: 0,
            idle: 0,
            busy: 0,
            free_gpus_on_busy: 0,
        }
    } else {
        let t = tally(nodes.drop_last(), queue);
        let n = node_tally(nodes.last().1, queue);
        Tally {
            pool: t.pool + n.pool,
            offline: t.offline + n.offline,
            gpus_total: t.gpus_total + n.gpus_total,
            gpus_free: t.gpus_free + n.gpus_free,
            cpus_total: t.cpus_total + n.cpus_total,
            cpus_free: t.cpus_free + n.cpus_free,
            idle: t.idle + n.idle,
            busy: t.busy + n.busy,
            free_gpus_on_busy: t.free_gpus_on_busy + n.free_gpus_on_busy,
        }
    }
}

/// The text of the member `key`, or the empty text.
fn member_text(j: &Json, key: &str) -> (r: String)
    ensures
        r@ == text_member(j@, key@),
{
    match json::as_text(j.get(key)) {
        Some(t) => t.clone(),
        None => "".to_owned(),
    }
}

/// Does a node run jobs of `queue`?
fn serves_queue(node: &Json, queue: &str) -> (r: bool)
    ensures
        r == serves(node@, queue@),
{
    let empty = Json::Null;
    let available = match node.get("resources_available") {
        Some(v) => v,
        None => &empty,
    };
    assert(available@ == json::member_or_null(node@, "resources_available"@));
    let queues = text::split(member_text(available, "Qlist").as_str(), ',');
    let ghost all = text::texts(queues@);
    let mut i: usize = 0;
    while i < queues.len()
        invariant
            i <= queues@.len(),
            all == text::texts(queues@),
            all == text::pieces(
                text_member(json::member_or_null(node@, "resources_available"@), "Qlist"@),
                ',',
            ),
            forall|k: int| 0 <= k < i ==> text::trimmed(#[trigger] all[k]) != queue@,
        decreases queues@.len() - i,
    {
        assert(all[i as int] == queues@[i as int]@);
        if text::same(text::trim(queues[i].as_str()).as_str(), queue) {
            return true;
        }
        i += 1;
    }
    false
}

/// Does the cluster hold the sums `t`, as 64-bit words?
pub open spec fn holds(c: Cluster, t: Tally) -> bool {
    &&& c.pool == t.pool
    &&& c.offline == t.offline
    &&& c.gpus_total == wrap::word(t.gpus_total)
    &&& c.gpus_free == wrap::word(t.gpus_free)
    &&& c.cpus_total == wrap::word(t.cpus_total)
    &&& c.cpus_free == wrap::word(t.cpus_free)
    &&& c.nodes_idle == t.idle
    &&& c.nodes_busy == t.busy
    &&& c.free_gpus_on_busy == wrap::word(t.free_gpus_on_busy)
}

/// Are two clusters the same but for the sums over the nodes?
pub open spec fn same_but_sums(a: Cluster, b: Cluster) -> bool {
    a == (Cluster {
        pool: a.pool,
        offline: a.offline,
        gpus_total: a.gpus_total,
        gpus_free: a.gpus_free,
        cpus_total: a.cpus_total,
        cpus_free: a.cpus_free,
        nodes_idle: a.nodes_idle,
        nodes_busy: a.nodes_busy,
        free_gpus_on_busy: a.free_gpus_on_busy,
        ..b
    })
}

/// A node counts in at most one way.
pub proof fn lemma_tally(nodes: Seq<(Seq<char>, JsonView)>, queue: Seq<char>)
    ensures
        ({
            let t = tally(nodes, queue);
            &&& 0 <= t.offline <= t.pool <= nodes.len()
            &&& 0 <= t.idle
            &&& 0 <= t.busy
            &&& t.pool == t.offline + t.idle + t.busy
            &&& 0 <= t.free_gpus_on_busy <= t.gpus_free <= t.gpus_total
            &&& 0 <= t.cpus_free <= t.cpus_total
        }),
    decreases nodes.len(),
{
    if nodes.len() > 0 {
        lemma_tally(nodes.drop_last(), queue);
    }
}

/// The sum of two words, as a word.
fn wrapped_sum(a: u64, b: u64) -> (r: u64)
    ensures
        r == wrap::word(a + b),
{
    a.wrapping_add(b)
}

/// Adds what one node holds.
fn add_node(c: &mut Cluster, node: &Json, queue: &str)
    requires
        old(c).pool < usize::MAX,
        old(c).offline <= old(c).pool,
        old(c).nodes_idle <= old(c).pool,
        old(c).nodes_busy <= old(c).pool,
    ensures
        same_but_sums(*final(c), *old(c)),
        ({
            let n = node_tally(node@, queue@);
            &&& final(c).pool == old(c).pool + n.pool
            &&& final(c).offline == old(c).offline + n.offline
            &&& final(c).gpus_total == wrap::word(old(c).gpus_total + n.gpus_total)
            &&& final(c).gpus_free == wrap::word(old(c).gpus_free + n.gpus_free)
            &&& final(c).cpus_total == wrap::word(old(c).cpus_total + n.cpus_total)
            &&& final(c).cpus_free == wrap::word(old(c).cpus_free + n.cpus_free)
            &&& final(c).nodes_idle == old(c).nodes_idle + n.idle
            &&& final(c).nodes_busy == old(c).nodes_busy + n.busy
            &&& final(c).free_gpus_on_busy == wrap::word(old(c).free_gpus_on_busy + n.free_gpus_on_busy)
        }),
{
    if !serves_queue(node, queue) {
        // Dedicated to some other queue.
        return;
    }
    c.pool += 1;
    let state = member_text(node, "state");
    if text::contains(state.as_str(), "offline") || text::contains(state.as_str(), "down") {
        c.offline += 1;
        return;
    }
    let av_g: u64 = num(node, "resources_available", "ngpus");
    let av_c: u64 = num(node, "resources_available", "ncpus");
    let as_g: u64 = num(node, "resources_assigned", "ngpus");
    let as_c: u64 = num(node, "resources_assigned", "ncpus");
    c.gpus_total = wrapped_sum(c.gpus_total, av_g);
    c.gpus_free = wrapped_sum(c.gpus_free, av_g.saturating_sub(as_g));
    c.cpus_total = wrapped_sum(c.cpus_total, av_c);
    c.cpus_free = wrapped_sum(c.cpus_free, av_c.saturating_sub(as_c));
    if as_g == 0 && as_c == 0 {
        c.nodes_idle += 1;
    } else {
        c.nodes_busy += 1;
        c.free_gpus_on_busy = wrapped_sum(c.free_gpus_on_busy, av_g.saturating_sub(as_g));
    }
}

/// Adds what the nodes hold.
fn add_nodes(c: &mut Cluster, nodes: &Vec<(String, Json)>, queue: &str)
    requires
        holds(*old(c), tally(Seq::empty(), queue@)),
    ensures
        same_but_sums(*final(c), *old(c)),
        holds(
            *final(c),
            tally(Seq::new(nodes@.len(), |i: int| (nodes@[i].0@, nodes@[i].1@)), queue@),
        ),
{
    let ghost all = Seq::new(nodes@.len(), |i: int| (nodes@[i].0@, nodes@[i].1@));
    let mut i: usize = 0;
    assert(all.take(0) == Seq::<(Seq<char>, JsonView)>::empty());
    while i < nodes.len()
        invariant
            i <= nodes@.len(),
            all == Seq::new(nodes@.len(), |i: int| (nodes@[i].0@, nodes@[i].1@)),
            same_but_sums(*c, *old(c)),
            holds(*c, tally(all.take(i as int), queue@)),
        decreases nodes@.len() - i,
    {
        let ghost t = tally(all.take(i as int), queue@);
        let ghost n = node_tally(nodes@[i as int].1@, queue@);
        assert(all.take(i + 1).drop_last() == all.take(i as int));
        assert(all.take(i + 1).last() == all[i as int]);
        proof {
            lemma_tally(all.take(i as int), queue@);
            wrap::lemma_word_sum(t.gpus_total, n.gpus_total);
            wrap::lemma_word_sum(t.gpus_free, n.gpus_free);
            wrap::lemma_word_sum(t.cpus_total, n.cpus_total);
            wrap::lemma_word_sum(t.cpus_free, n.cpus_free);
            wrap::lemma_word_sum(t.free_gpus_on_busy, n.free_gpus_on_busy);
        }
        add_node(c, &nodes[i].1, queue);
        i += 1;
    }
    assert(all.take(i as int) == all);
}

// ---------------------------------------------------------------------------
// counts and limits
// ---------------------------------------------------------------------------

/// The count that the first of the fields `key:count` says; 0 where it says none.
pub open spec fn count_named(fields: Seq<Seq<char>>, key: Seq<char>) -> u64
    decreases fields.len(),
{
    if fields.len() == 0 {
        0
    } else {
        match text::cut(fields[0], ':') {
            Some(kv) => if kv.0 == key {
                match digits::read_nat(kv.1, u64::MAX as nat) {
                    Some(n) => n as u64,
                    None => 0,
                }
            } else {
                count_named(fields.skip(1), key)
            },
            None => count_named(fields.skip(1), key),
        }
    }
}

/// `"Transit:0 Queued:0 Held:22 Waiting:1 Running:68 ..."` -> one field.
pub fn state_count(s: &str, key: &str) -> (r: u64)
    ensures
        r == count_named(text::words(s@), key@),
{
    let fields = text::split_whitespace(s);
    let ghost all = text::texts(fields@);
    let mut i: usize = 0;
    assert(all.skip(0) == all);
    while i < fields.len()
        invariant
            i <= fields@.len(),
            all == text::texts(fields@),
            count_named(all.skip(i as int), key@) == count_named(all, key@),
            all == text::words(s@),
        decreases fields@.len() - i,
    {
        assert(all.skip(i as int)[0] == fields@[i as int]@);
        assert(all.skip(i as int).skip(1) == all.skip(i + 1));
        match text::split_once(fields[i].as_str(), ':') {
            Some(kv) => {
                if text::same(kv.0.as_str(), key) {
                    return match digits::read_u64(kv.1.as_str()) {
                        Some(n) => n,
                        None => 0,
                    };
                }
            },
            None => {},
        }
        i += 1;
    }
    0
}

/// The text behind the last `=`.
pub open spec fn behind_equals(s: Seq<char>) -> Option<Seq<char>>
    decreases s.len(),
{
    if s.len() == 0 {
        None
    } else if s.last() == '=' {
        Some(Seq::empty())
    } else {
        match behind_equals(s.drop_last()) {
            Some(t) => Some(t.push(s.last())),
            None => None,
        }
    }
}

/// The number that the digits behind the last `=` write.
pub open spec fn limit_in(s: Seq<char>) -> Option<u64> {
    match behind_equals(s) {
        Some(t) => match digits::read_nat(t.take(fmt::leading_digits(t)), u64::MAX as nat) {
            Some(n) => Some(n as u64),
            None => None,
        },
        None => None,
    }
}

/// What stands behind the last `=`, by its index.
proof fn lemma_behind_equals(s: Seq<char>, i: int)
    requires
        0 <= i <= s.len(),
        i > 0 ==> s[i - 1] == '=',
        forall|k: int| i <= k < s.len() ==> s[k] != '=',
    ensures
        i > 0 ==> behind_equals(s) == Some(s.skip(i)),
        i == 0 ==> behind_equals(s) is None,
    decreases s.len(),
{
    if s.len() > 0 {
        if i == s.len() {
            assert(s.skip(i) == Seq::<char>::empty());
        } else {
            lemma_behind_equals(s.drop_last(), i);
            if i > 0 {
                assert(s.drop_last().skip(i).push(s.last()) == s.skip(i));
            }
        }
    }
}

/// `"[u:PBS_GENERIC=100]"` / `"[o:PBS_ALL=300]"` -> 100 / 300.
pub fn limit_value(s: &str) -> (r: Option<u64>)
    ensures
        r == limit_in(s@),
{
    let v = text::chars_of(s);
    let mut i: usize = v.len();
    while i > 0 && v[i - 1] != '='
        invariant
            i <= v@.len(),
            forall|k: int| i <= k < v@.len() ==> v@[k] != '=',
        decreases i,
    {
        i -= 1;
    }
    proof {
        lemma_behind_equals(v@, i as int);
    }
    if i == 0 {
        return None;
    }
    let ghost t = v@.skip(i as int);
    let mut to: usize = i;
    while to < v.len() && '0' <= v[to] && v[to] <= '9'
        invariant
            i <= to <= v@.len(),
            t == v@.skip(i as int),
            to - i + fmt::leading_digits(v@.skip(to as int)) == fmt::leading_digits(t),
        decreases v@.len() - to,
    {
        assert(v@.skip(to as int).skip(1) == v@.skip(to + 1));
        to += 1;
    }
    let digits = text::text_of(&v, i, to);
    assert(digits@ == t.take(to - i));
    digits::read_u64(digits.as_str())
}

// ---------------------------------------------------------------------------
// reservations
// ---------------------------------------------------------------------------

/// What a reservation says.
pub struct ResvView {
    pub name: Seq<char>,
    pub owner: Seq<char>,
    pub start: int,
    pub end: int,
    pub nodect: int,
}

impl View for Resv {
    type V = ResvView;

    open spec fn view(&self) -> ResvView {
        ResvView {
            name: self.name@,
            owner: self.owner@,
            start: self.start as int,
            end: self.end as int,
            nodect: self.nodect as int,
        }
    }
}

/// A reservation of which nothing is known yet.
pub open spec fn blank() -> ResvView {
    ResvView { name: Seq::empty(), owner: Seq::empty(), start: 0, end: 0, nodect: 0 }
}

/// The time that a text says, or 0.
pub open spec fn time_or_zero(v: Seq<char>, tz: int) -> int {
    match fmt::pbs_date(v, tz) {
        Some(t) => t as int,
        None => 0,
    }
}

/// A reservation, once its attribute `k` is `v`.
pub open spec fn assigned(r: ResvView, k: Seq<char>, v: Seq<char>, tz: int) -> ResvView {
    if k == "Reserve_Name"@ {
        ResvView { name: v, ..r }
    } else if k == "Reserve_Owner"@ {
        ResvView { owner: v, ..r }
    } else if k == "reserve_start"@ {
        ResvView { start: time_or_zero(v, tz), ..r }
    } else if k == "reserve_end"@ {
        ResvView { end: time_or_zero(v, tz), ..r }
    } else if k == "Resource_List.nodect"@ {
        ResvView {
            nodect: match digits::read_nat(v, u64::MAX as nat) {
                Some(n) => n as int,
                None => 0,
            },
            ..r
        }
    } else {
        r
    }
}

/// The reservations that the lines describe: those that are complete, and the last one.
pub open spec fn described(lines: Seq<Seq<char>>, tz: int) -> (Seq<ResvView>, ResvView)
    decreases lines.len(),
{
    if lines.len() == 0 {
        (seq![], blank())
    } else {
        let (complete, r) = described(lines.drop_last(), tz);
        let line = text::trimmed(lines.last());
        if text::begins(line, "Resv ID:"@) {
            (complete.push(r), blank())
        } else {
            match text::cut(line, '=') {
                Some(kv) => (complete, assigned(r, text::trimmed(kv.0), text::trimmed(kv.1), tz)),
                None => (complete, r),
            }
        }
    }
}

/// All reservations that a text describes.
pub open spec fn reservations(text: Seq<char>, tz: int) -> Seq<ResvView> {
    let d = described(text::text_lines(text), tz);
    d.0.push(d.1)
}

/// Is a reservation one of root? Its owner is a user, `@` and a host.
pub open spec fn by_root(r: ResvView) -> bool {
    text::before(r.owner, '@') == "root"@
}

/// The first of the soonest among the reservations of root that start after `now`.
pub open spec fn soonest(all: Seq<ResvView>, now: int) -> Option<ResvView>
    decreases all.len(),
{
    if all.len() == 0 {
        None
    } else {
        let best = soonest(all.drop_last(), now);
        let r = all.last();
        if by_root(r) && r.start > now && (best is None || r.start < best->0.start) {
            Some(r)
        } else {
            best
        }
    }
}

/// The soonest reservation is one of root that starts after `now`, and no other of root that
/// starts after `now` starts before it. There is one if any of root starts after `now`.
pub proof fn law_soonest(all: Seq<ResvView>, now: int)
    ensures
        soonest(all, now) matches Some(r) ==> all.contains(r) && by_root(r) && r.start > now,
        forall|i: int|
            0 <= i < all.len() && by_root(#[trigger] all[i]) && all[i].start > now ==> (soonest(
                all,
                now,
            ) matches Some(r) && r.start <= all[i].start),
    decreases all.len(),
{
    if all.len() > 0 {
        let rest = all.drop_last();
        law_soonest(rest, now);
        if let Some(r) = soonest(rest, now) {
            let k = choose|k: int| 0 <= k < rest.len() && rest[k] == r;
            assert(all[k] == r);
        }
        assert(all[all.len() - 1] == all.last());
        assert forall|i: int|
            0 <= i < all.len() && by_root(#[trigger] all[i]) && all[i].start > now implies (soonest(
            all,
            now,
        ) matches Some(r) && r.start <= all[i].start) by {
            if i < rest.len() {
                assert(rest[i] == all[i]);
            }
        }
    }
}

/// A reservation of which nothing is known yet.
fn blank_resv() -> (r: Resv)
    ensures
        r@ == blank(),
{
    Resv { name: String::new(), owner: String::new(), start: 0, end: 0, nodect: 0 }
}

/// The view of a reservation, where there is one.
pub open spec fn opt_resv(r: Option<Resv>) -> Option<ResvView> {
    match r {
        Some(v) => Some(v@),
        None => None,
    }
}

/// Keeps `r` where it is one of root and starts after `now` and before the best so far.
fn keep_sooner(best: Option<Resv>, r: Resv, now: i64) -> (b: Option<Resv>)
    ensures
        opt_resv(b) == (if by_root(r@) && r.start > now && (best is None || r.start < best->0.start) {
            Some(r@)
        } else {
            opt_resv(best)
        }),
{
    let sooner = match &best {
        Some(b) => r.start < b.start,
        None => true,
    };
    if text::same(text::head(r.owner.as_str(), '@').as_str(), "root") && r.start > now && sooner {
        Some(r)
    } else {
        best
    }
}

/// The time that a text says, or 0.
fn read_time(v: &str, tz: i64) -> (r: i64)
    ensures
        r == time_or_zero(v@, tz as int),
{
    match fmt::parse_pbs_date(v, tz) {
        Some(t) => t,
        None => 0,
    }
}

/// The next reservation of root that has not started yet, from a text of `pbs_rstat -F`.
pub fn soonest_reservation(text: &str, now: i64, tz: i64) -> (r: Option<Resv>)
    ensures
        opt_resv(r) == soonest(reservations(text@, tz as int), now as int),
{
    let ls = text::lines(text);
    let ghost all = text::texts(ls@);
    let mut best: Option<Resv> = None;
    let mut cur = blank_resv();
    let mut i: usize = 0;
    assert(all.take(0) == Seq::<Seq<char>>::empty());
    assert(cur@ == blank());
    while i < ls.len()
        invariant
            i <= ls@.len(),
            all == text::texts(ls@),
            ({
                let d = described(all.take(i as int), tz as int);
                &&& opt_resv(best) == soonest(d.0, now as int)
                &&& cur@ == d.1
            }),
        decreases ls@.len() - i,
    {
        assert(all.take(i + 1).drop_last() == all.take(i as int));
        let ghost d = described(all.take(i as int), tz as int);
        let line = text::trim(ls[i].as_str());
        if text::starts_with(line.as_str(), "Resv ID:") {
            assert(d.0.push(d.1).drop_last() == d.0);
            best = keep_sooner(best, cur, now);
            cur = blank_resv();
            assert(cur@ == blank());
        } else {
            match text::split_once(line.as_str(), '=') {
                Some(kv) => {
                    let k = text::trim(kv.0.as_str());
                    let v = text::trim(kv.1.as_str());
                    if text::same(k.as_str(), "Reserve_Name") {
                        cur.name = v;
                    } else if text::same(k.as_str(), "Reserve_Owner") {
                        cur.owner = v;
                    } else if text::same(k.as_str(), "reserve_start") {
                        cur.start = read_time(v.as_str(), tz);
                    } else if text::same(k.as_str(), "reserve_end") {
                        cur.end = read_time(v.as_str(), tz);
                    } else if text::same(k.as_str(), "Resource_List.nodect") {
                        cur.nodect = match digits::read_u64(v.as_str()) {
                            Some(n) => n,
                            None => 0,
                        };
                    }
                },
                None => {},
            }
        }
        i += 1;
    }
    assert(all.take(i as int) == all);
    let ghost d = described(all, tz as int);
    assert(d.0.push(d.1).drop_last() == d.0);
    keep_sooner(best, cur, now)
}

/// The next reservation of root that has not started yet, from what `pbs_rstat -F` printed.
pub fn next_reservation(stdout: &[u8], now: i64, tz: i64) -> (r: Option<Resv>)
    ensures
        opt_resv(r) == soonest(reservations(text::utf8_lossy(stdout@), tz as int), now as int),
{
    soonest_reservation(text::lossy(stdout).as_str(), now, tz)
}

// ---------------------------------------------------------------------------
// the cluster
// ---------------------------------------------------------------------------

/// The value of the first member of the object `key`; `Null` where there is none.
pub open spec fn first_value(j: JsonView, key: Seq<char>) -> JsonView {
    let m = json::members(json::member_or_null(j, key));
    if m.len() > 0 {
        m[0].1
    } else {
        JsonView::Null
    }
}

/// The queue that jobs go to by default.
pub open spec fn queue_of(server: JsonView) -> Seq<char> {
    match json::text_in(json::member(server, "default_queue"@)) {
        Some(q) => q,
        None => "abciq"@,
    }
}

/// The limit `key` of a queue.
pub open spec fn queue_limit(queue: JsonView, key: Seq<char>) -> Option<u64> {
    match json::text_in(json::member(json::member_or_null(queue, "max_run_res"@), key)) {
        Some(t) => limit_in(t),
        None => None,
    }
}

/// The value of the first member of the object `key`, where there is one.
fn first_of<'a>(j: &'a Json, key: &str) -> (r: Option<&'a Json>)
    ensures
        match r {
            Some(v) => v@ == first_value(j@, key@),
            None => first_value(j@, key@) == JsonView::Null,
        },
{
    match j.get(key) {
        Some(Json::Object(m)) => {
            if m.len() > 0 {
                assert(json::members(json::member_or_null(j@, key@))[0] == (m@[0].0@, m@[0].1@));
                Some(&m[0].1)
            } else {
                None
            }
        },
        _ => None,
    }
}

/// The queue that jobs go to by default, from what `qstat -B` says.
pub fn default_queue(sv: &Json) -> (r: String)
    ensures
        r@ == queue_of(first_value(sv@, "Server"@)),
{
    match json::as_text(json::member_of(first_of(sv, "Server"), "default_queue")) {
        Some(q) => q.clone(),
        None => "abciq".to_owned(),
    }
}

/// The limit `key` of a queue.
fn limit_of(queue: Option<&Json>, key: &str) -> (r: Option<u64>)
    ensures
        r == queue_limit(
            match json::opt_view(queue) {
                Some(v) => v,
                None => JsonView::Null,
            },
            key@,
        ),
{
    match json::as_text(json::member_of(json::member_of(queue, "max_run_res"), key)) {
        Some(t) => limit_value(t.as_str()),
        None => None,
    }
}

/// Does `c` say what the documents of the server, the nodes and the queue say, and which
/// reservation is next?
pub open spec fn reports(
    c: Cluster,
    sv: JsonView,
    nodes: Seq<(Seq<char>, JsonView)>,
    qv: Option<JsonView>,
    rstat: Option<Seq<char>>,
    tz: int,
) -> bool {
    let server = first_value(sv, "Server"@);
    let counts = text::words(text_member(server, "state_count"@));
    let queue = match qv {
        Some(q) => first_value(q, "Queue"@),
        None => JsonView::Null,
    };
    &&& c.server@ == pbs::text_or(json::text_in(json::member(sv, "pbs_server"@)), "pbs"@)
    &&& c.queue@ == queue_of(server)
    &&& c.timestamp == match json::signed_in(json::member(sv, "timestamp"@)) {
        Some(t) => t,
        None => 0,
    }
    &&& holds(c, tally(nodes, queue_of(server)))
    &&& c.running == count_named(counts, "Running"@)
    &&& c.queued == count_named(counts, "Queued"@)
    &&& c.held == count_named(counts, "Held"@)
    &&& c.limit_user_nodes == queue_limit(queue, "spot_rt_QF"@)
    &&& c.limit_cluster_nodect == queue_limit(queue, "nodect"@)
    &&& opt_resv(c.next_resv) == match rstat {
        Some(t) => soonest(reservations(t, tz), c.timestamp as int),
        None => None,
    }
}

/// The view of a text, where there is one.
pub open spec fn opt_str(t: Option<&str>) -> Option<Seq<char>> {
    match t {
        Some(s) => Some(s@),
        None => None,
    }
}

/// The text that bytes say, where there are some.
pub open spec fn opt_lossy(b: Option<&[u8]>) -> Option<Seq<char>> {
    match b {
        Some(v) => Some(text::utf8_lossy(v@)),
        None => None,
    }
}

/// Puts the documents of the server, the nodes and the queue and the reservations together.
pub fn assemble(sv: &Json, nv: &Json, qv: Option<&Json>, rstat: Option<&str>, tz: i64) -> (r: Result<
    Cluster,
    String,
>)
    ensures
        match json::member(nv@, "nodes"@) {
            Some(JsonView::Object(nodes)) => r matches Ok(c) && reports(
                c,
                sv@,
                nodes,
                json::opt_view(qv),
                opt_str(rstat),
                tz as int,
            ),
            _ => r matches Err(e) && e@ == "pbsnodes returned no nodes"@,
        },
{
    let empty = Json::Null;
    let server_name = match json::as_text(sv.get("pbs_server")) {
        Some(t) => t.clone(),
        None => "pbs".to_owned(),
    };
    let timestamp = match json::as_signed(sv.get("timestamp")) {
        Some(t) => t,
        None => 0,
    };
    let server = match first_of(sv, "Server") {
        Some(v) => v,
        None => &empty,
    };
    let queue = default_queue(sv);
    let counts = member_text(server, "state_count");
    let nodes = match nv.get("nodes") {
        Some(Json::Object(m)) => m,
        _ => {
            return Err("pbsnodes returned no nodes".to_owned());
        },
    };
    let ghost all = json::json_view(Json::Object(*nodes))->Object_0;
    let queue_doc = match qv {
        Some(q) => first_of(q, "Queue"),
        None => None,
    };
    let next_resv = match rstat {
        Some(t) => soonest_reservation(t, timestamp, tz),
        None => None,
    };
    let mut c = Cluster {
        server: server_name,
        queue: queue.clone(),
        timestamp,
        pool: 0,
        offline: 0,
        gpus_total: 0,
        gpus_free: 0,
        cpus_total: 0,
        cpus_free: 0,
        nodes_idle: 0,
        nodes_busy: 0,
        free_gpus_on_busy: 0,
        running: state_count(counts.as_str(), "Running"),
        queued: state_count(counts.as_str(), "Queued"),
        held: state_count(counts.as_str(), "Held"),
        limit_user_nodes: limit_of(queue_doc, "spot_rt_QF"),
        limit_cluster_nodect: limit_of(queue_doc, "nodect"),
        next_resv,
    };
    assert(all == Seq::new(nodes@.len(), |i: int| (nodes@[i].0@, nodes@[i].1@)));
    add_nodes(&mut c, nodes, queue.as_str());
    Ok(c)
}

/// Cluster-wide capacity, from the documents of the server, the nodes and the queue and
/// from what `pbs_rstat` printed.
pub fn fetch(sv: &Json, nv: &Json, qv: Option<&Json>, rstat: Option<&[u8]>, tz: i64) -> (r: Result<
    Cluster,
    String,
>)
    ensures
        match json::member(nv@, "nodes"@) {
            Some(JsonView::Object(nodes)) => r matches Ok(c) && reports(
                c,
                sv@,
                nodes,
                json::opt_view(qv),
                opt_lossy(rstat),
                tz as int,
            ),
            _ => r matches Err(e) && e@ == "pbsnodes returned no nodes"@,
        },
{
    match rstat {
        Some(b) => {
            let t = text::lossy(b);
            assemble(sv, nv, qv, Some(t.as_str()), tz)
        },
        None => assemble(sv, nv, qv, None, tz),
    }
}

/// No counted node is lost: each one is offline, idle or busy; and what is free is part of
/// what is there.
pub proof fn law_nodes_add_up(nodes: Seq<(Seq<char>, JsonView)>, queue: Seq<char>)
    ensures
        ({
            let t = tally(nodes, queue);
            &&& t.pool == t.offline + t.idle + t.busy
            &&& 0 <= t.pool <= nodes.len()
            &&& 0 <= t.free_gpus_on_busy <= t.gpus_free <= t.gpus_total
            &&& 0 <= t.cpus_free <= t.cpus_total
        }),
{
    lemma_tally(nodes, queue);
}

} // verus!

//! Laws of reading jobs: what a job is, by the document that `qstat` printed of it.

use crate::json::{Json, JsonView, NumberView};
use crate::pbs::{Job, Reading, State};
use crate::digits;
use crate::fmt;
use crate::json;
use crate::laws;
use crate::pbs;
use crate::text;
use vstd::prelude::*;

verus! {

// ---------------------------------------------------------------------------
// documents
// ---------------------------------------------------------------------------

/// Is `x` the value of the first member `key` of the object `j`?
pub open spec fn has(j: JsonView, key: Seq<char>, x: JsonView) -> bool {
    j matches JsonView::Object(m) && exists|i: int|
        0 <= i < m.len() && #[trigger] m[i] == (key, x) && forall|k: int|
            0 <= k < i ==> (#[trigger] m[k]).0 != key
}

/// Has `j` no member `key`?
pub open spec fn lacks(j: JsonView, key: Seq<char>) -> bool {
    j matches JsonView::Object(m) ==> forall|i: int| 0 <= i < m.len() ==> (#[trigger] m[i]).0 != key
}

/// Is `t` what the member `key` says, as a text or as a number?
pub open spec fn spells(j: JsonView, key: Seq<char>, t: Seq<char>) -> bool {
    ||| has(j, key, JsonView::Text(t))
    ||| exists|n: NumberView| n.text == t && #[trigger] has(j, key, JsonView::Number(n))
}

/// Does no member `key` say anything, as a text or as a number?
pub open spec fn silent(j: JsonView, key: Seq<char>) -> bool {
    forall|t: Seq<char>| !#[trigger] spells(j, key, t)
}

/// The first member with a key is the one that is found.
proof fn lemma_found(m: Seq<(Seq<char>, JsonView)>, key: Seq<char>)
    ensures
        match json::find_member(m, key) {
            Some(x) => exists|i: int|
                0 <= i < m.len() && #[trigger] m[i] == (key, x) && forall|k: int|
                    0 <= k < i ==> (#[trigger] m[k]).0 != key,
            None => forall|i: int| 0 <= i < m.len() ==> (#[trigger] m[i]).0 != key,
        },
    decreases m.len(),
{
    if m.len() > 0 {
        if m[0].0 == key {
            assert(m[0] == (key, m[0].1));
        } else {
            let rest = m.skip(1);
            lemma_found(rest, key);
            match json::find_member(rest, key) {
                Some(x) => {
                    let i = choose|i: int|
                        0 <= i < rest.len() && #[trigger] rest[i] == (key, x) && forall|k: int|
                            0 <= k < i ==> (#[trigger] rest[k]).0 != key;
                    assert(m[i + 1] == (key, x));
                    assert forall|k: int| 0 <= k < i + 1 implies (#[trigger] m[k]).0 != key by {
                        if k > 0 {
                            assert(rest[k - 1] == m[k]);
                        }
                    }
                },
                None => {
                    assert forall|i: int| 0 <= i < m.len() implies (#[trigger] m[i]).0 != key by {
                        if i > 0 {
                            assert(rest[i - 1] == m[i]);
                        }
                    }
                },
            }
        }
    }
}

/// A member that is found is the first with its key; and none is found only where there is none.
pub proof fn law_member(j: JsonView, key: Seq<char>)
    ensures
        forall|x: JsonView| #[trigger] has(j, key, x) <==> json::member(j, key) == Some(x),
        lacks(j, key) <==> json::member(j, key) is None,
{
    if let JsonView::Object(m) = j {
        lemma_found(m, key);
        assert forall|x: JsonView| #[trigger] has(j, key, x) implies json::member(j, key) == Some(x) by {
            let i = choose|i: int|
                0 <= i < m.len() && #[trigger] m[i] == (key, x) && forall|k: int|
                    0 <= k < i ==> (#[trigger] m[k]).0 != key;
            if let Some(y) = json::find_member(m, key) {
                let k = choose|k: int|
                    0 <= k < m.len() && #[trigger] m[k] == (key, y) && forall|q: int|
                        0 <= q < k ==> (#[trigger] m[q]).0 != key;
                if k < i {
                    assert(m[k].0 != key);
                } else if i < k {
                    assert(m[i].0 != key);
                }
            } else {
                assert(m[i].0 != key);
            }
        }
    }
}

/// What the member `key` says is the text of the attribute.
proof fn lemma_spells(j: JsonView, key: Seq<char>)
    ensures
        forall|t: Seq<char>| #[trigger] spells(j, key, t) <==> pbs::attribute(j, key) == Some(t),
        silent(j, key) <==> pbs::attribute(j, key) is None,
{
    law_member(j, key);
    assert forall|t: Seq<char>| #[trigger] spells(j, key, t) <==> pbs::attribute(j, key) == Some(t) by {
        if pbs::attribute(j, key) == Some(t) {
            match json::member(j, key) {
                Some(JsonView::Text(x)) => {
                    assert(has(j, key, JsonView::Text(t)));
                },
                Some(JsonView::Number(n)) => {
                    assert(has(j, key, JsonView::Number(n)));
                },
                _ => {},
            }
        }
    }
    if pbs::attribute(j, key) is Some {
        assert(spells(j, key, pbs::attribute(j, key)->0));
    }
}

/// `Json::get` gives the first member with a key.
pub proof fn law_get(j: &Json, key: &str, r: Option<&Json>)
    requires
        call_ensures(Json::get, (j, key), r),
    ensures
        match r {
            Some(x) => has(j@, key@, x@),
            None => lacks(j@, key@),
        },
{
    law_member(j@, key@);
}

// ---------------------------------------------------------------------------
// the texts of a job
// ---------------------------------------------------------------------------

/// Is `h` what stands before the first `c` of `t`, or all of `t` where there is no `c`?
pub open spec fn is_head(h: Seq<char>, t: Seq<char>, c: char) -> bool {
    &&& !h.contains(c)
    &&& t == h || (t.len() > h.len() && t.take(h.len() as int) == h && t[h.len() as int] == c)
}

/// What stands before the first `c` is the head.
proof fn lemma_head(t: Seq<char>, c: char)
    ensures
        is_head(text::before(t, c), t, c),
{
    text::lemma_first_at(t, c);
    let n = text::first_at(t, c);
    if text::before(t, c).contains(c) {
        let k = choose|k: int| 0 <= k < n && text::before(t, c)[k] == c;
        assert(t[k] == c);
    }
    if n == t.len() {
        assert(text::before(t, c) == t);
    }
}

/// A job is named by its id, and shortly by what stands before the dot; its owner is the user
/// before the `@`; its name, queue and service are those of its attributes; and it is charged
/// to the group of `group_list`, or else to the one that its environment names.
pub proof fn law_job_names(id: &str, j: &Json, tz: i64, job: Job)
    requires
        call_ensures(pbs::parse_job, (id, j, tz), job),
    ensures
        job.id@ == id@,
        is_head(job.short_id@, id@, '.'),
        forall|t: Seq<char>| #[trigger] spells(j@, "Job_Name"@, t) ==> job.name@ == t,
        silent(j@, "Job_Name"@) ==> job.name@ == "-"@,
        forall|t: Seq<char>| #[trigger]
            spells(j@, "Job_Owner"@, t) ==> is_head(job.owner@, t, '@'),
        forall|t: Seq<char>| #[trigger] spells(j@, "queue"@, t) ==> job.queue@ == t,
        silent(j@, "queue"@) ==> job.queue@ == ""@,
        forall|g: Seq<char>| #[trigger] spells(j@, "group_list"@, g) ==> job.group@ == g,
        forall|vars: JsonView, g: Seq<char>|
            silent(j@, "group_list"@) && #[trigger] has(j@, "Variable_List"@, vars)
                && #[trigger] spells(vars, "GROUP_NAME"@, g) ==> job.group@ == g,
        silent(j@, "group_list"@) && lacks(j@, "Variable_List"@) ==> job.group@ == ""@,
        forall|vars: JsonView, t: Seq<char>| #[trigger]
            has(j@, "Variable_List"@, vars) && #[trigger] spells(vars, "SERVICE_TYPE"@, t)
                ==> job.service@ == t,
{
    lemma_head(id@, '.');
    lemma_spells(j@, "Job_Name"@);
    lemma_spells(j@, "Job_Owner"@);
    lemma_spells(j@, "queue"@);
    lemma_spells(j@, "group_list"@);
    law_member(j@, "Variable_List"@);
    assert forall|t: Seq<char>| #[trigger] spells(j@, "Job_Owner"@, t) implies is_head(
        job.owner@,
        t,
        '@',
    ) by {
        lemma_head(t, '@');
    }
    let vars = json::member_or_null(j@, "Variable_List"@);
    lemma_spells(vars, "GROUP_NAME"@);
    lemma_spells(vars, "SERVICE_TYPE"@);
    lemma_spells(JsonView::Null, "GROUP_NAME"@);
}

/// A job is in the state that its code says; a code that is not known, or none, stands for
/// another state.
pub proof fn law_job_state(id: &str, j: &Json, tz: i64, job: Job)
    requires
        call_ensures(pbs::parse_job, (id, j, tz), job),
    ensures
        spells(j@, "job_state"@, seq!['R']) ==> job.state == State::Running,
        spells(j@, "job_state"@, seq!['Q']) ==> job.state == State::Queued,
        spells(j@, "job_state"@, seq!['H']) ==> job.state == State::Held,
        spells(j@, "job_state"@, seq!['W']) ==> job.state == State::Waiting,
        spells(j@, "job_state"@, seq!['E']) ==> job.state == State::Exiting,
        spells(j@, "job_state"@, seq!['F']) ==> job.state == State::Finished,
        spells(j@, "job_state"@, seq!['S']) ==> job.state == State::Suspended,
        spells(j@, "job_state"@, seq!['T']) ==> job.state == State::Suspended,
        spells(j@, "job_state"@, seq!['U']) ==> job.state == State::Suspended,
        forall|t: Seq<char>| #[trigger]
            spells(j@, "job_state"@, t) && (t.len() != 1 || !seq![
                'R',
                'Q',
                'H',
                'W',
                'E',
                'F',
                'S',
                'T',
                'U',
            ].contains(t[0])) ==> job.state == State::Other,
        silent(j@, "job_state"@) ==> job.state == State::Other,
{
    lemma_spells(j@, "job_state"@);
    law_codes();
    assert forall|t: Seq<char>| #[trigger]
        spells(j@, "job_state"@, t) && (t.len() != 1 || !seq![
            'R',
            'Q',
            'H',
            'W',
            'E',
            'F',
            'S',
            'T',
            'U',
        ].contains(t[0])) implies job.state == State::Other by {
        lemma_other_codes(t);
    }
    reveal_strlit("");
    lemma_other_codes(""@);
}

/// What the codes of states stand for.
proof fn law_codes()
    ensures
        pbs::state_of(seq!['R']) == State::Running,
        pbs::state_of(seq!['Q']) == State::Queued,
        pbs::state_of(seq!['H']) == State::Held,
        pbs::state_of(seq!['W']) == State::Waiting,
        pbs::state_of(seq!['E']) == State::Exiting,
        pbs::state_of(seq!['F']) == State::Finished,
        pbs::state_of(seq!['S']) == State::Suspended,
        pbs::state_of(seq!['T']) == State::Suspended,
        pbs::state_of(seq!['U']) == State::Suspended,
{
    lemma_code_texts();
}

/// The codes as texts.
proof fn lemma_code_texts()
    ensures
        "R"@ == seq!['R'],
        "Q"@ == seq!['Q'],
        "H"@ == seq!['H'],
        "W"@ == seq!['W'],
        "E"@ == seq!['E'],
        "F"@ == seq!['F'],
        "S"@ == seq!['S'],
        "T"@ == seq!['T'],
        "U"@ == seq!['U'],
        seq!['R'][0] == 'R',
        seq!['Q'][0] == 'Q',
        seq!['H'][0] == 'H',
        seq!['W'][0] == 'W',
        seq!['E'][0] == 'E',
        seq!['F'][0] == 'F',
        seq!['S'][0] == 'S',
        seq!['T'][0] == 'T',
        seq!['U'][0] == 'U',
{
    reveal_strlit("R");
    reveal_strlit("Q");
    reveal_strlit("H");
    reveal_strlit("W");
    reveal_strlit("E");
    reveal_strlit("F");
    reveal_strlit("S");
    reveal_strlit("T");
    reveal_strlit("U");
}

/// Codes that are not known stand for another state.
proof fn lemma_other_codes(t: Seq<char>)
    requires
        t.len() != 1 || !seq!['R', 'Q', 'H', 'W', 'E', 'F', 'S', 'T', 'U'].contains(t[0]),
    ensures
        pbs::state_of(t) == State::Other,
{
    lemma_code_texts();
    let known = seq!['R', 'Q', 'H', 'W', 'E', 'F', 'S', 'T', 'U'];
    assert(known[0] == 'R' && known[1] == 'Q' && known[2] == 'H' && known[3] == 'W' && known[4]
        == 'E' && known[5] == 'F' && known[6] == 'S' && known[7] == 'T' && known[8] == 'U');
    assert(known.contains('R') && known.contains('Q') && known.contains('H') && known.contains('W')
        && known.contains('E') && known.contains('F') && known.contains('S') && known.contains('T')
        && known.contains('U'));
}

// ---------------------------------------------------------------------------
// what a job asked for and uses
// ---------------------------------------------------------------------------

/// Is `n` the count that the member `key` is, or writes in digits?
pub open spec fn counts(j: JsonView, key: Seq<char>, n: u64) -> bool {
    ||| has(j, key, JsonView::Text(digits::decimal(n as nat)))
    ||| exists|x: NumberView| x.unsigned == Some(n) && #[trigger] has(j, key, JsonView::Number(x))
}

/// A count that a member is, or writes, is read.
proof fn lemma_counts(j: JsonView, key: Seq<char>)
    ensures
        forall|n: u64| #[trigger] counts(j, key, n) ==> pbs::count(j, key) == Some(n),
        lacks(j, key) ==> pbs::count(j, key) is None,
{
    law_member(j, key);
    assert forall|n: u64| #[trigger] counts(j, key, n) implies pbs::count(j, key) == Some(n) by {
        digits::law_read_back(n as nat, u64::MAX as nat);
    }
}

/// What a job asked for is what its `Resource_List` says: node, core and GPU counts, memory, a
/// walltime limit, and the first type `rt_*`. Without a count it has one node, and neither
/// cores nor GPUs.
pub proof fn law_job_requests(id: &str, j: &Json, tz: i64, job: Job, rl: JsonView)
    requires
        call_ensures(pbs::parse_job, (id, j, tz), job),
        has(j@, "Resource_List"@, rl),
    ensures
        forall|n: u64| #[trigger] counts(rl, "nodect"@, n) ==> job.nodect == n,
        lacks(rl, "nodect"@) ==> job.nodect == 1,
        forall|n: u64| #[trigger] counts(rl, "ncpus"@, n) ==> job.ncpus == n,
        lacks(rl, "ncpus"@) ==> job.ncpus == 0,
        forall|n: u64| #[trigger] counts(rl, "ngpus"@, n) ==> job.ngpus == n,
        lacks(rl, "ngpus"@) ==> job.ngpus == 0,
        forall|t: Seq<char>| #[trigger] spells(rl, "mem"@, t) ==> job.mem_req@ == t,
        forall|n: u64| #[trigger]
            spells(rl, "walltime"@, fmt::hms_text(n as nat)) ==> job.walltime_req == Some(n),
        silent(rl, "walltime"@) ==> job.walltime_req is None,
        rl matches JsonView::Object(m) ==> match job.rtype {
            Some(t) => exists|i: int|
                0 <= i < m.len() && t@ == (#[trigger] m[i]).0 && is_type(m[i].0) && forall|k: int|
                    0 <= k < i ==> !is_type((#[trigger] m[k]).0),
            None => forall|i: int| 0 <= i < m.len() ==> !is_type((#[trigger] m[i]).0),
        },
{
    law_member(j@, "Resource_List"@);
    lemma_counts(rl, "nodect"@);
    lemma_counts(rl, "ncpus"@);
    lemma_counts(rl, "ngpus"@);
    lemma_spells(rl, "mem"@);
    lemma_spells(rl, "walltime"@);
    assert forall|n: u64| #[trigger] spells(rl, "walltime"@, fmt::hms_text(n as nat)) implies job.walltime_req
        == Some(n) by {
        laws::law_duration_read_back(n);
    }
    if let JsonView::Object(m) = rl {
        lemma_first_type(m);
    }
}

/// Does a key name a resource type?
pub open spec fn is_type(key: Seq<char>) -> bool {
    key.len() >= 3 && key[0] == 'r' && key[1] == 't' && key[2] == '_'
}

/// The first type is the first key that names one.
proof fn lemma_first_type(m: Seq<(Seq<char>, JsonView)>)
    ensures
        match pbs::first_type(m) {
            Some(t) => exists|i: int|
                0 <= i < m.len() && t == (#[trigger] m[i]).0 && is_type(m[i].0) && forall|k: int|
                    0 <= k < i ==> !is_type((#[trigger] m[k]).0),
            None => forall|i: int| 0 <= i < m.len() ==> !is_type((#[trigger] m[i]).0),
        },
    decreases m.len(),
{
    reveal_strlit("rt_");
    if m.len() > 0 {
        let key = m[0].0;
        assert(text::begins(key, "rt_"@) == is_type(key)) by {
            if is_type(key) {
                assert(key.take(3) == "rt_"@);
            } else if text::begins(key, "rt_"@) {
                assert(key.take(3)[0] == 'r' && key.take(3)[1] == 't' && key.take(3)[2] == '_');
            }
        }
        if is_type(key) {
            assert(m[0].0 == key);
        } else {
            let rest = m.skip(1);
            lemma_first_type(rest);
            match pbs::first_type(rest) {
                Some(t) => {
                    let i = choose|i: int|
                        0 <= i < rest.len() && t == (#[trigger] rest[i]).0 && is_type(rest[i].0)
                            && forall|k: int| 0 <= k < i ==> !is_type((#[trigger] rest[k]).0);
                    assert(m[i + 1] == rest[i]);
                    assert forall|k: int| 0 <= k < i + 1 implies !is_type((#[trigger] m[k]).0) by {
                        if k > 0 {
                            assert(rest[k - 1] == m[k]);
                        }
                    }
                },
                None => {
                    assert forall|i: int| 0 <= i < m.len() implies !is_type((#[trigger] m[i]).0) by {
                        if i > 0 {
                            assert(rest[i - 1] == m[i]);
                        }
                    }
                },
            }
        }
    }
}

/// A job without a `Resource_List` has one node, asked for nothing and has no limit.
pub proof fn law_job_without_requests(id: &str, j: &Json, tz: i64, job: Job)
    requires
        call_ensures(pbs::parse_job, (id, j, tz), job),
        lacks(j@, "Resource_List"@),
    ensures
        job.nodect == 1,
        job.ncpus == 0,
        job.ngpus == 0,
        job.mem_req@ == ""@,
        job.walltime_req is None,
        job.rtype is None,
{
    law_member(j@, "Resource_List"@);
}

/// What a job uses is what its `resources_used` says, and not what it asked for.
pub proof fn law_job_usage(id: &str, j: &Json, tz: i64, job: Job)
    requires
        call_ensures(pbs::parse_job, (id, j, tz), job),
    ensures
        lacks(j@, "resources_used"@) ==> job.walltime_used is None && job.mem_used_kb is None
            && job.cpupercent is None,
        forall|ru: JsonView, n: u64| #[trigger]
            has(j@, "resources_used"@, ru) && #[trigger] spells(ru, "walltime"@, fmt::hms_text(n as nat))
                ==> job.walltime_used == Some(n),
        forall|ru: JsonView, n: u64| #[trigger]
            has(j@, "resources_used"@, ru) && #[trigger] spells(
                ru,
                "mem"@,
                digits::decimal(n as nat) + "kb"@,
            ) ==> job.mem_used_kb == Some(n),
        forall|ru: JsonView, t: Seq<char>| #[trigger]
            has(j@, "resources_used"@, ru) && #[trigger] has(
                ru,
                "cpupercent"@,
                JsonView::Text(t),
            ) ==> (job.cpupercent matches Some(Reading::Text(x)) && x@ == t),
        forall|ru: JsonView, n: NumberView| #[trigger]
            has(j@, "resources_used"@, ru) && #[trigger] has(
                ru,
                "cpupercent"@,
                JsonView::Number(n),
            ) ==> match n.value {
                Some(v) => job.cpupercent == Some(Reading::Value(v)),
                None => job.cpupercent is None,
            },
{
    law_member(j@, "resources_used"@);
    let ru = json::member_or_null(j@, "resources_used"@);
    lemma_spells(ru, "walltime"@);
    lemma_spells(ru, "mem"@);
    law_member(ru, "cpupercent"@);
    assert forall|n: u64| #[trigger] spells(ru, "walltime"@, fmt::hms_text(n as nat)) implies job.walltime_used
        == Some(n) by {
        laws::law_duration_read_back(n);
    }
    assert forall|n: u64| #[trigger]
        spells(ru, "mem"@, digits::decimal(n as nat) + "kb"@) implies job.mem_used_kb == Some(n) by {
        laws::law_size_read_back(n);
    }
}

/// The times of a job are those that its own attributes say: submitted at `qtime`, started at
/// `stime`, expected at the `start_time` of `estimated`. Its comment, its submit arguments and
/// its exit status are those that it has.
pub proof fn law_job_times(id: &str, j: &Json, tz: i64, job: Job)
    requires
        call_ensures(pbs::parse_job, (id, j, tz), job),
    ensures
        forall|t: Seq<char>| #[trigger]
            spells(j@, "qtime"@, t) ==> job.qtime == fmt::pbs_date(t, tz as int),
        silent(j@, "qtime"@) ==> job.qtime is None,
        forall|t: Seq<char>| #[trigger]
            spells(j@, "stime"@, t) ==> job.stime == fmt::pbs_date(t, tz as int),
        silent(j@, "stime"@) ==> job.stime is None,
        forall|e: JsonView, t: Seq<char>| #[trigger]
            has(j@, "estimated"@, e) && #[trigger] has(e, "start_time"@, JsonView::Text(t)) ==> (
            job.est_start matches Some(x) && x@ == t),
        lacks(j@, "estimated"@) ==> job.est_start is None,
        forall|t: Seq<char>| #[trigger]
            spells(j@, "comment"@, t) ==> (job.comment matches Some(x) && x@ == t),
        silent(j@, "comment"@) ==> job.comment is None,
        forall|t: Seq<char>| #[trigger]
            spells(j@, "Submit_arguments"@, t) ==> (job.submit_args matches Some(x) && x@ == t),
        silent(j@, "Submit_arguments"@) ==> job.submit_args is None,
        forall|n: NumberView| #[trigger]
            has(j@, "Exit_status"@, JsonView::Number(n)) ==> job.exit_status == n.signed,
        lacks(j@, "Exit_status"@) ==> job.exit_status is None,
{
    lemma_spells(j@, "qtime"@);
    lemma_spells(j@, "stime"@);
    lemma_spells(j@, "comment"@);
    lemma_spells(j@, "Submit_arguments"@);
    law_member(j@, "Exit_status"@);
    law_member(j@, "estimated"@);
    law_member(json::member_or_null(j@, "estimated"@), "start_time"@);
}

/// What a document does not say of a job is left open, or empty: its owner, its service, its
/// group, its memory, its times and its load.
pub proof fn law_job_unsaid(id: &str, j: &Json, tz: i64, job: Job)
    requires
        call_ensures(pbs::parse_job, (id, j, tz), job),
    ensures
        silent(j@, "Job_Owner"@) ==> job.owner@ == ""@,
        lacks(j@, "Variable_List"@) ==> job.service@ == ""@,
        forall|vars: JsonView| #[trigger]
            has(j@, "Variable_List"@, vars) && silent(vars, "SERVICE_TYPE"@) ==> job.service@ == ""@,
        forall|vars: JsonView| #[trigger]
            has(j@, "Variable_List"@, vars) && silent(vars, "GROUP_NAME"@) && silent(
                j@,
                "group_list"@,
            ) ==> job.group@ == ""@,
        forall|rl: JsonView| #[trigger]
            has(j@, "Resource_List"@, rl) && silent(rl, "mem"@) ==> job.mem_req@ == ""@,
        forall|ru: JsonView| #[trigger]
            has(j@, "resources_used"@, ru) ==> (silent(ru, "mem"@) ==> job.mem_used_kb is None) && (
            silent(ru, "walltime"@) ==> job.walltime_used is None) && (lacks(ru, "cpupercent"@)
                ==> job.cpupercent is None),
        forall|e: JsonView| #[trigger]
            has(j@, "estimated"@, e) && lacks(e, "start_time"@) ==> job.est_start is None,
        forall|t: Seq<char>| #[trigger]
            has(j@, "Exit_status"@, JsonView::Text(t)) ==> job.exit_status is None,
{
    lemma_spells(j@, "Job_Owner"@);
    lemma_spells(j@, "group_list"@);
    law_member(j@, "Variable_List"@);
    law_member(j@, "Resource_List"@);
    law_member(j@, "resources_used"@);
    law_member(j@, "estimated"@);
    law_member(j@, "Exit_status"@);
    let vars = json::member_or_null(j@, "Variable_List"@);
    let rl = json::member_or_null(j@, "Resource_List"@);
    let ru = json::member_or_null(j@, "resources_used"@);
    lemma_spells(vars, "SERVICE_TYPE"@);
    lemma_spells(vars, "GROUP_NAME"@);
    lemma_spells(rl, "mem"@);
    lemma_spells(ru, "mem"@);
    lemma_spells(ru, "walltime"@);
    law_member(ru, "cpupercent"@);
    law_member(json::member_or_null(j@, "estimated"@), "start_time"@);
    assert(text::before(""@, '@') == ""@) by {
        reveal_strlit("");
        text::lemma_first_at(""@, '@');
    }
}

/// Durations and sizes of a job are read in whatever notation they have; a count that is no
/// number counts as none.
pub proof fn law_job_notations(id: &str, j: &Json, tz: i64, job: Job)
    requires
        call_ensures(pbs::parse_job, (id, j, tz), job),
    ensures
        forall|rl: JsonView, t: Seq<char>| #[trigger]
            has(j@, "Resource_List"@, rl) && #[trigger] spells(rl, "walltime"@, t)
                ==> job.walltime_req == fmt::duration(t),
        forall|ru: JsonView, t: Seq<char>| #[trigger]
            has(j@, "resources_used"@, ru) && #[trigger] spells(ru, "walltime"@, t)
                ==> job.walltime_used == fmt::duration(t),
        forall|ru: JsonView, t: Seq<char>| #[trigger]
            has(j@, "resources_used"@, ru) && #[trigger] spells(ru, "mem"@, t) ==> job.mem_used_kb
                == fmt::size_kb(t),
        forall|rl: JsonView, t: Seq<char>| #[trigger]
            has(j@, "Resource_List"@, rl) && #[trigger] has(rl, "nodect"@, JsonView::Text(t))
                && t.len() > 0 && 'a' <= t[0] <= 'z' ==> job.nodect == 1,
        forall|rl: JsonView, t: Seq<char>| #[trigger]
            has(j@, "Resource_List"@, rl) && #[trigger] has(rl, "ngpus"@, JsonView::Text(t))
                && t.len() > 0 && 'a' <= t[0] <= 'z' ==> job.ngpus == 0,
        forall|rl: JsonView, t: Seq<char>| #[trigger]
            has(j@, "Resource_List"@, rl) && #[trigger] has(rl, "ncpus"@, JsonView::Text(t))
                && t.len() > 0 && 'a' <= t[0] <= 'z' ==> job.ncpus == 0,
{
    law_member(j@, "Resource_List"@);
    law_member(j@, "resources_used"@);
    let rl = json::member_or_null(j@, "Resource_List"@);
    let ru = json::member_or_null(j@, "resources_used"@);
    lemma_spells(rl, "walltime"@);
    lemma_spells(ru, "walltime"@);
    lemma_spells(ru, "mem"@);
    law_member(rl, "nodect"@);
    law_member(rl, "ngpus"@);
    law_member(rl, "ncpus"@);
    assert forall|t: Seq<char>| t.len() > 0 && 'a' <= t[0] <= 'z' implies #[trigger] digits::read_nat(
        t,
        u64::MAX as nat,
    ) is None by {
        let d = digits::unsigned_part(t, '+');
        assert(d == t);
        assert(!digits::is_digit(d[0]));
    }
}

// ---------------------------------------------------------------------------
// where a job runs
// ---------------------------------------------------------------------------

/// Is `h` the host of a chunk like `h`, `h:ngpus=4` or `h[0]:ngpus=4`?
pub open spec fn hosted(h: Seq<char>, chunk: Seq<char>) -> bool {
    &&& h.len() > 0 && !text::is_space(h[0]) && !text::is_space(h.last())
    &&& !h.contains(':') && !h.contains('[')
    &&& chunk == h || (chunk.len() > h.len() && chunk.take(h.len() as int) == h && (
    chunk[h.len() as int] == ':' || chunk[h.len() as int] == '['))
}

/// Is `chunks` what stands between the `+` of an execution list, without the parentheses round
/// the list?
pub open spec fn lists_chunks(list: Seq<char>, chunks: Seq<Seq<char>>) -> bool {
    exists|core: Seq<char>|
        #![trigger text::pieces(core, '+')]
        chunks == text::pieces(core, '+') && (list == core || list == seq!['('] + core + seq![')'])
            && core.len() > 0 && !pbs::is_paren(core[0]) && !pbs::is_paren(core.last())
}

/// Has a chunk a host?
pub open spec fn has_host(chunk: Seq<char>) -> bool {
    exists|h: Seq<char>| hosted(h, chunk)
}

/// Is `h` the host of one of the chunks?
pub open spec fn hosts_some(h: Seq<char>, chunks: Seq<Seq<char>>) -> bool {
    exists|i: int| 0 <= i < chunks.len() && hosted(h, #[trigger] chunks[i])
}

/// Are `nodes` the hosts of the chunks: each host once, none that is not one, the host of the
/// first chunk first?
pub open spec fn are_hosts(nodes: Seq<Seq<char>>, chunks: Seq<Seq<char>>) -> bool {
    &&& nodes.no_duplicates()
    &&& forall|i: int, h: Seq<char>|
        0 <= i < chunks.len() && #[trigger] hosted(h, chunks[i]) ==> nodes.contains(h)
    &&& (forall|i: int| 0 <= i < chunks.len() ==> has_host(#[trigger] chunks[i])) ==> forall|k: int|
        0 <= k < nodes.len() ==> hosts_some(#[trigger] nodes[k], chunks)
    &&& forall|h: Seq<char>| chunks.len() > 0 && #[trigger] hosted(h, chunks[0]) ==> nodes.len() > 0
        && nodes[0] == h
}

/// The host of a chunk is what is read of it.
pub(crate) proof fn lemma_hosted(h: Seq<char>, chunk: Seq<char>)
    requires
        hosted(h, chunk),
    ensures
        pbs::host_of(chunk) == h,
{
    let a = text::before(chunk, ':');
    lemma_head(chunk, ':');
    text::lemma_first_at(chunk, ':');
    text::lemma_first_at(a, '[');
    let n = text::first_at(chunk, ':');
    let k = text::first_at(a, '[');
    assert forall|i: int| 0 <= i < h.len() implies chunk[i] == #[trigger] h[i] by {
        assert(chunk.take(h.len() as int)[i] == chunk[i]);
    }
    if n < h.len() {
        assert(h.contains(h[n]));
    }
    if k < h.len() {
        assert(a[k] == chunk[k]);
        assert(h.contains(h[k]));
    }
    if chunk.len() > h.len() {
        if chunk[h.len() as int] == ':' {
            assert(n == h.len());
        } else {
            assert(n > h.len());
            assert(a[h.len() as int] == '[');
            assert(k == h.len());
        }
    }
    assert(text::before(a, '[') == h);
}

/// Parentheses round a text go, and nothing else does.
proof fn lemma_unparen(core: Seq<char>)
    requires
        core.len() > 0,
        !pbs::is_paren(core[0]),
        !pbs::is_paren(core.last()),
    ensures
        pbs::unparen_end(pbs::unparen_start(core)) == core,
        pbs::unparen_end(pbs::unparen_start(seq!['('] + core + seq![')'])) == core,
{
    let s = seq!['('] + core + seq![')'];
    assert(s[0] == '(');
    assert(s.skip(1) == core + seq![')']);
    assert((core + seq![')'])[0] == core[0]);
    assert((core + seq![')']).drop_last() == core);
    reveal_with_fuel(pbs::unparen_start, 3);
    reveal_with_fuel(pbs::unparen_end, 3);
}

/// The hosts of chunks.
proof fn lemma_hosts(chunks: Seq<Seq<char>>)
    ensures
        are_hosts(pbs::hosts(chunks), chunks),
{
    let nodes = pbs::hosts(chunks);
    pbs::law_hosts(chunks);
    assert forall|i: int, h: Seq<char>|
        0 <= i < chunks.len() && #[trigger] hosted(h, chunks[i]) implies nodes.contains(h) by {
        lemma_hosted(h, chunks[i]);
    }
    if forall|i: int| 0 <= i < chunks.len() ==> has_host(#[trigger] chunks[i]) {
        lemma_hosts_from(chunks);
        assert forall|k: int| 0 <= k < nodes.len() implies hosts_some(#[trigger] nodes[k], chunks) by {
            let i = choose|i: int|
                0 <= i < chunks.len() && pbs::host_of(#[trigger] chunks[i]) == nodes[k];
            assert(has_host(chunks[i]));
            let h = choose|h: Seq<char>| hosted(h, chunks[i]);
            lemma_hosted(h, chunks[i]);
        }
    }
    assert forall|h: Seq<char>| chunks.len() > 0 && #[trigger] hosted(h, chunks[0]) implies nodes.len()
        > 0 && nodes[0] == h by {
        lemma_hosted(h, chunks[0]);
        lemma_first_host(chunks);
    }
}

/// Every host is that of a chunk.
proof fn lemma_hosts_from(chunks: Seq<Seq<char>>)
    ensures
        forall|k: int|
            #![trigger pbs::hosts(chunks)[k]]
            0 <= k < pbs::hosts(chunks).len() ==> exists|i: int|
                0 <= i < chunks.len() && pbs::host_of(#[trigger] chunks[i]) == pbs::hosts(chunks)[k],
    decreases chunks.len(),
{
    if chunks.len() > 0 {
        let rest = chunks.drop_last();
        lemma_hosts_from(rest);
        assert forall|k: int|
            #![trigger pbs::hosts(chunks)[k]]
            0 <= k < pbs::hosts(chunks).len() implies exists|i: int|
            0 <= i < chunks.len() && pbs::host_of(#[trigger] chunks[i]) == pbs::hosts(chunks)[k] by {
            if k < pbs::hosts(rest).len() {
                assert(pbs::hosts(chunks)[k] == pbs::hosts(rest)[k]);
                let i = choose|i: int|
                    0 <= i < rest.len() && pbs::host_of(#[trigger] rest[i]) == pbs::hosts(rest)[k];
                assert(chunks[i] == rest[i]);
            } else {
                assert(chunks[chunks.len() - 1] == chunks.last());
            }
        }
    }
}

/// The first host is that of the first chunk, where that has one.
proof fn lemma_first_host(chunks: Seq<Seq<char>>)
    requires
        chunks.len() > 0,
        pbs::host_of(chunks[0]).len() > 0,
    ensures
        pbs::hosts(chunks).len() > 0,
        pbs::hosts(chunks)[0] == pbs::host_of(chunks[0]),
    decreases chunks.len(),
{
    let rest = chunks.drop_last();
    if chunks.len() > 1 {
        assert(rest[0] == chunks[0]);
        lemma_first_host(rest);
    } else {
        assert(pbs::hosts(rest) == Seq::<Seq<char>>::empty());
    }
}

/// The hosts of a list of chunks are what is read of it.
proof fn lemma_listed(list: Seq<char>, chunks: Seq<Seq<char>>)
    requires
        lists_chunks(list, chunks),
    ensures
        are_hosts(pbs::nodes_of(list), chunks),
{
    let core = choose|core: Seq<char>|
        #![trigger text::pieces(core, '+')]
        chunks == text::pieces(core, '+') && (list == core || list == seq!['('] + core + seq![')'])
            && core.len() > 0 && !pbs::is_paren(core[0]) && !pbs::is_paren(core.last());
    lemma_unparen(core);
    lemma_hosts(chunks);
}

/// A job runs on the hosts of its `exec_vnode`, whatever its `exec_host` says; `exec_host` is
/// read only where there is no `exec_vnode`; and without either the job runs nowhere.
pub proof fn law_job_nodes(id: &str, j: &Json, tz: i64, job: Job)
    requires
        call_ensures(pbs::parse_job, (id, j, tz), job),
    ensures
        forall|list: Seq<char>, chunks: Seq<Seq<char>>| #[trigger]
            spells(j@, "exec_vnode"@, list) && #[trigger] lists_chunks(list, chunks) ==> are_hosts(
                text::texts(job.nodes@),
                chunks,
            ),
        forall|list: Seq<char>, chunks: Seq<Seq<char>>|
            silent(j@, "exec_vnode"@) && #[trigger] spells(j@, "exec_host"@, list)
                && #[trigger] lists_chunks(list, chunks) ==> are_hosts(text::texts(job.nodes@), chunks),
        silent(j@, "exec_vnode"@) && silent(j@, "exec_host"@) ==> job.nodes@.len() == 0,
{
    lemma_spells(j@, "exec_vnode"@);
    lemma_spells(j@, "exec_host"@);
    assert forall|list: Seq<char>, chunks: Seq<Seq<char>>| #[trigger]
        spells(j@, "exec_vnode"@, list) && #[trigger] lists_chunks(list, chunks) implies are_hosts(
        text::texts(job.nodes@),
        chunks,
    ) by {
        lemma_listed(list, chunks);
    }
    assert forall|list: Seq<char>, chunks: Seq<Seq<char>>|
        silent(j@, "exec_vnode"@) && #[trigger] spells(j@, "exec_host"@, list)
            && #[trigger] lists_chunks(list, chunks) implies are_hosts(text::texts(job.nodes@), chunks) by {
        lemma_listed(list, chunks);
    }
    assert(text::texts(job.nodes@).len() == job.nodes@.len());
}

/// Two jobs with the same `exec_vnode` run on the same nodes, whatever else is said of them.
pub proof fn law_nodes_by_vnode(
    id: &str,
    j: &Json,
    tz: i64,
    job: Job,
    id2: &str,
    j2: &Json,
    tz2: i64,
    job2: Job,
    list: Seq<char>,
)
    requires
        call_ensures(pbs::parse_job, (id, j, tz), job),
        call_ensures(pbs::parse_job, (id2, j2, tz2), job2),
        spells(j@, "exec_vnode"@, list),
        spells(j2@, "exec_vnode"@, list),
    ensures
        text::texts(job.nodes@) == text::texts(job2.nodes@),
{
    lemma_spells(j@, "exec_vnode"@);
    lemma_spells(j2@, "exec_vnode"@);
}

// ---------------------------------------------------------------------------
// where a job writes
// ---------------------------------------------------------------------------

/// The path `path` on the host `host`.
pub open spec fn at_host(host: Seq<char>, path: Seq<char>) -> Seq<char> {
    host + seq![':'] + path
}

/// Is `p` the path that `t` names? A host and a colon before an absolute path go.
pub open spec fn is_path(p: Seq<char>, t: Seq<char>) -> bool {
    ||| t == p && (forall|host: Seq<char>, path: Seq<char>|
        !host.contains(':') && path.len() > 0 && path[0] == '/' ==> t != #[trigger] at_host(
            host,
            path,
        ))
    ||| p.len() > 0 && p[0] == '/' && exists|host: Seq<char>|
        !host.contains(':') && t == #[trigger] at_host(host, p)
}

/// The path without its host is the one that is named.
proof fn lemma_path(t: Seq<char>)
    ensures
        is_path(pbs::hostless(t), t),
{
    let n = text::first_at(t, ':');
    text::lemma_first_at(t, ':');
    if n < t.len() && t.skip(n + 1).len() > 0 && t.skip(n + 1)[0] == '/' {
        let host = t.take(n);
        assert(!host.contains(':'));
        assert(t == at_host(host, t.skip(n + 1)));
    } else {
        assert forall|host: Seq<char>, path: Seq<char>|
            !host.contains(':') && path.len() > 0 && path[0] == '/' implies t != #[trigger] at_host(
            host,
            path,
        ) by {
            if t == at_host(host, path) {
                assert(t[host.len() as int] == ':');
                assert(forall|i: int| 0 <= i < host.len() ==> host.contains(#[trigger] host[i]));
                assert(forall|i: int| 0 <= i < host.len() ==> t[i] == #[trigger] host[i]);
                assert(n == host.len());
                assert(t.skip(n + 1) == path);
            }
        }
    }
}

/// A job writes its output to its `Output_Path` and its errors to its `Error_Path`; it joins
/// them exactly where its `Join_Path` is `oe` or `eo`.
pub proof fn law_job_logs(id: &str, j: &Json, tz: i64, job: Job)
    requires
        call_ensures(pbs::parse_job, (id, j, tz), job),
    ensures
        forall|t: Seq<char>| #[trigger]
            spells(j@, "Output_Path"@, t) ==> (job.log_path matches Some(p) && is_path(p@, t)),
        silent(j@, "Output_Path"@) ==> job.log_path is None,
        forall|t: Seq<char>| #[trigger]
            spells(j@, "Error_Path"@, t) ==> (job.error_path matches Some(p) && is_path(p@, t)),
        silent(j@, "Error_Path"@) ==> job.error_path is None,
        job.join_oe <==> spells(j@, "Join_Path"@, seq!['o', 'e']) || spells(
            j@,
            "Join_Path"@,
            seq!['e', 'o'],
        ),
{
    lemma_spells(j@, "Output_Path"@);
    lemma_spells(j@, "Error_Path"@);
    lemma_spells(j@, "Join_Path"@);
    reveal_strlit("oe");
    reveal_strlit("eo");
    assert("oe"@ == seq!['o', 'e']);
    assert("eo"@ == seq!['e', 'o']);
    assert forall|t: Seq<char>| #[trigger] spells(j@, "Output_Path"@, t) implies (
    job.log_path matches Some(p) && is_path(p@, t)) by {
        lemma_path(t);
    }
    assert forall|t: Seq<char>| #[trigger] spells(j@, "Error_Path"@, t) implies (
    job.error_path matches Some(p) && is_path(p@, t)) by {
        lemma_path(t);
    }
}

} // verus!

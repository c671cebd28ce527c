//! Jobs, as PBS and the account commands describe them.
//!
//! Everything comes from `qstat -f -F json`. Note that `-u` is never passed: the
//! `qstat` first in `PATH` on ABCI-Q is a site wrapper that rejects it. Every job the
//! server will show is asked for and filtered by owner in-process, which works with
//! both the wrapper and the stock `/opt/pbs/bin/qstat`.

use crate::json::{Json, JsonView};
use crate::reals::Real;
use crate::digits;
use crate::fmt;
use crate::json;
use crate::reals;
use crate::text;
use crate::wrap;
use vstd::prelude::*;

verus! {

// ---------------------------------------------------------------------------
// states
// ---------------------------------------------------------------------------

/// The state of a job.
#[derive(Clone, Copy, PartialEq, Eq, Structural)]
pub enum State {
    Running,
    Queued,
    Held,
    Waiting,
    Exiting,
    Finished,
    Suspended,
    Other,
}

/// The state that a code of PBS stands for.
pub open spec fn state_of(c: Seq<char>) -> State {
    if c == "R"@ {
        State::Running
    } else if c == "Q"@ {
        State::Queued
    } else if c == "H"@ {
        State::Held
    } else if c == "W"@ {
        State::Waiting
    } else if c == "E"@ {
        State::Exiting
    } else if c == "F"@ {
        State::Finished
    } else if c == "S"@ || c == "T"@ || c == "U"@ {
        State::Suspended
    } else {
        State::Other
    }
}

/// The code of a state.
pub open spec fn state_code(s: State) -> Seq<char> {
    match s {
        State::Running => "R"@,
        State::Queued => "Q"@,
        State::Held => "H"@,
        State::Waiting => "W"@,
        State::Exiting => "E"@,
        State::Finished => "F"@,
        State::Suspended => "S"@,
        State::Other => "?"@,
    }
}

/// The name of a state.
pub open spec fn state_label(s: State) -> Seq<char> {
    match s {
        State::Running => "running"@,
        State::Queued => "queued"@,
        State::Held => "held"@,
        State::Waiting => "waiting"@,
        State::Exiting => "exiting"@,
        State::Finished => "finished"@,
        State::Suspended => "suspended"@,
        State::Other => "unknown"@,
    }
}

/// The ANSI colour of a state.
pub open spec fn state_color(s: State) -> Seq<char> {
    match s {
        State::Running => "32"@,
        State::Queued => "33"@,
        State::Held => "35"@,
        State::Waiting => "34"@,
        State::Exiting => "36"@,
        State::Finished => "90"@,
        State::Suspended => "31"@,
        State::Other => "37"@,
    }
}

/// The place of a state in a listing.
pub open spec fn state_rank(s: State) -> u8 {
    match s {
        State::Running => 0,
        State::Exiting => 1,
        State::Queued => 2,
        State::Waiting => 3,
        State::Held => 4,
        State::Suspended => 5,
        State::Finished => 6,
        State::Other => 7,
    }
}

impl State {
    /// The state that a code of PBS stands for.
    pub fn from_code(c: &str) -> (r: State)
        ensures
            r == state_of(c@),
    {
        if text::same(c, "R") {
            State::Running
        } else if text::same(c, "Q") {
            State::Queued
        } else if text::same(c, "H") {
            State::Held
        } else if text::same(c, "W") {
            State::Waiting
        } else if text::same(c, "E") {
            State::Exiting
        } else if text::same(c, "F") {
            State::Finished
        } else if text::same(c, "S") || text::same(c, "T") || text::same(c, "U") {
            State::Suspended
        } else {
            State::Other
        }
    }

    /// The one-letter code.
    pub fn code(&self) -> (r: &'static str)
        ensures
            r@ == state_code(*self),
    {
        match self {
            State::Running => "R",
            State::Queued => "Q",
            State::Held => "H",
            State::Waiting => "W",
            State::Exiting => "E",
            State::Finished => "F",
            State::Suspended => "S",
            State::Other => "?",
        }
    }

    /// The name in full.
    pub fn label(&self) -> (r: &'static str)
        ensures
            r@ == state_label(*self),
    {
        match self {
            State::Running => "running",
            State::Queued => "queued",
            State::Held => "held",
            State::Waiting => "waiting",
            State::Exiting => "exiting",
            State::Finished => "finished",
            State::Suspended => "suspended",
            State::Other => "unknown",
        }
    }

    /// ANSI colour for this state.
    pub fn color(&self) -> (r: &'static str)
        ensures
            r@ == state_color(*self),
    {
        match self {
            State::Running => "32",
            State::Queued => "33",
            State::Held => "35",
            State::Waiting => "34",
            State::Exiting => "36",
            State::Finished => "90",
            State::Suspended => "31",
            State::Other => "37",
        }
    }

    /// Sort key: active work first, then things that are waiting, then history.
    pub fn rank(&self) -> (r: u8)
        ensures
            r == state_rank(*self),
    {
        match self {
            State::Running => 0,
            State::Exiting => 1,
            State::Queued => 2,
            State::Waiting => 3,
            State::Held => 4,
            State::Suspended => 5,
            State::Finished => 6,
            State::Other => 7,
        }
    }
}

/// The code of a state stands for the state.
pub proof fn law_state_codes(s: State)
    ensures
        state_of(state_code(s)) == s,
{
    reveal_strlit("R");
    reveal_strlit("Q");
    reveal_strlit("H");
    reveal_strlit("W");
    reveal_strlit("E");
    reveal_strlit("F");
    reveal_strlit("S");
    reveal_strlit("T");
    reveal_strlit("U");
    reveal_strlit("?");
    let c = state_code(s);
    assert(c.len() == 1);
    assert(c[0] == match s {
        State::Running => 'R',
        State::Queued => 'Q',
        State::Held => 'H',
        State::Waiting => 'W',
        State::Exiting => 'E',
        State::Finished => 'F',
        State::Suspended => 'S',
        State::Other => '?',
    });
}

// ---------------------------------------------------------------------------
// rate cards
// ---------------------------------------------------------------------------

/// Points per node-hour of each resource type. A later entry takes the place of an earlier
/// one for the same type.
pub struct RateCard {
    entries: Vec<(String, Real)>,
}

/// The map that a list of entries is, later entries before earlier ones.
pub open spec fn overlay(base: Map<Seq<char>, Real>, entries: Seq<(String, Real)>) -> Map<Seq<char>, Real>
    decreases entries.len(),
{
    if entries.len() == 0 {
        base
    } else {
        overlay(base, entries.drop_last()).insert(entries.last().0@, entries.last().1)
    }
}

/// The standard card.
pub open spec fn standard_rates() -> Map<Seq<char>, Real> {
    Map::<Seq<char>, Real>::empty()
        .insert("rt_QF"@, Real { bits: reals::BITS_FIVE })
        .insert("rt_QG"@, Real { bits: reals::BITS_TWO })
        .insert("rt_QC"@, Real { bits: reals::BITS_ONE })
        .insert("rt_QD"@, Real { bits: reals::BITS_TEN })
        .insert("rt_QS"@, Real { bits: reals::BITS_TEN })
        .insert("rt_QA"@, Real { bits: reals::BITS_TEN })
}

impl View for RateCard {
    type V = Map<Seq<char>, Real>;

    closed spec fn view(&self) -> Map<Seq<char>, Real> {
        overlay(Map::empty(), self.entries@)
    }
}

/// The rate of a type is that of its last entry.
pub proof fn law_last_entry_counts(
    base: Map<Seq<char>, Real>,
    entries: Seq<(String, Real)>,
    name: Seq<char>,
    i: int,
)
    requires
        0 <= i < entries.len(),
        entries[i].0@ == name,
        forall|k: int| i < k < entries.len() ==> (#[trigger] entries[k]).0@ != name,
    ensures
        overlay(base, entries).dom().contains(name),
        overlay(base, entries)[name] == entries[i].1,
    decreases entries.len(),
{
    if i < entries.len() - 1 {
        let rest = entries.drop_last();
        assert(entries[entries.len() - 1].0@ != name);
        assert forall|k: int| i < k < rest.len() implies (#[trigger] rest[k]).0@ != name by {
            assert(rest[k] == entries[k]);
        }
        law_last_entry_counts(base, rest, name, i);
    }
}

/// A type without an entry has the rate that it had.
pub proof fn law_no_entry_changes_nothing(
    base: Map<Seq<char>, Real>,
    entries: Seq<(String, Real)>,
    name: Seq<char>,
)
    requires
        forall|k: int| 0 <= k < entries.len() ==> (#[trigger] entries[k]).0@ != name,
    ensures
        overlay(base, entries).dom().contains(name) == base.dom().contains(name),
        base.dom().contains(name) ==> overlay(base, entries)[name] == base[name],
    decreases entries.len(),
{
    if entries.len() > 0 {
        let rest = entries.drop_last();
        assert(entries[entries.len() - 1].0@ != name);
        assert forall|k: int| 0 <= k < rest.len() implies (#[trigger] rest[k]).0@ != name by {
            assert(rest[k] == entries[k]);
        }
        law_no_entry_changes_nothing(base, rest, name);
    }
}

impl RateCard {
    /// A card without rates.
    pub fn new() -> (r: RateCard)
        ensures
            r@ == Map::<Seq<char>, Real>::empty(),
    {
        RateCard { entries: Vec::new() }
    }

    /// Sets the rate of a type.
    pub fn insert(&mut self, name: String, rate: Real)
        ensures
            final(self)@ == old(self)@.insert(name@, rate),
    {
        self.entries.push((name, rate));
        assert(self.entries@.drop_last() == old(self).entries@);
    }

    /// The rate of a type.
    pub fn get(&self, name: &str) -> (r: Option<Real>)
        ensures
            match r {
                Some(rate) => self@.dom().contains(name@) && self@[name@] == rate,
                None => !self@.dom().contains(name@),
            },
    {
        let mut i: usize = self.entries.len();
        while i > 0
            invariant
                i <= self.entries@.len(),
                forall|k: int|
                    i <= k < self.entries@.len() ==> (#[trigger] self.entries@[k]).0@ != name@,
            decreases i,
        {
            if text::same(self.entries[i - 1].0.as_str(), name) {
                proof {
                    law_last_entry_counts(Map::empty(), self.entries@, name@, i - 1);
                }
                return Some(self.entries[i - 1].1);
            }
            i -= 1;
        }
        proof {
            law_no_entry_changes_nothing(Map::empty(), self.entries@, name@);
        }
        None
    }
}

/// Point rates per node-hour, from the Special Support card, with `overrides` on top.
pub fn point_rates(overrides: &Vec<(String, Real)>) -> (r: RateCard)
    ensures
        r@ == overlay(standard_rates(), overrides@),
{
    let mut m = RateCard::new();
    m.insert("rt_QF".to_owned(), Real { bits: reals::BITS_FIVE });
    m.insert("rt_QG".to_owned(), Real { bits: reals::BITS_TWO });
    m.insert("rt_QC".to_owned(), Real { bits: reals::BITS_ONE });
    m.insert("rt_QD".to_owned(), Real { bits: reals::BITS_TEN });
    m.insert("rt_QS".to_owned(), Real { bits: reals::BITS_TEN });
    m.insert("rt_QA".to_owned(), Real { bits: reals::BITS_TEN });
    let mut i: usize = 0;
    while i < overrides.len()
        invariant
            i <= overrides@.len(),
            m@ == overlay(standard_rates(), overrides@.take(i as int)),
        decreases overrides@.len() - i,
    {
        let ghost next = overrides@.take(i + 1);
        assert(next.drop_last() == overrides@.take(i as int));
        m.insert(overrides[i].0.clone(), overrides[i].1);
        i += 1;
    }
    assert(overrides@.take(i as int) == overrides@);
    m
}

/// The types and rates that an override text names: pairs `type=rate` between commas.
pub open spec fn override_pairs(p: Seq<Seq<char>>) -> Seq<(Seq<char>, Seq<char>)>
    decreases p.len(),
{
    if p.len() == 0 {
        seq![]
    } else {
        match text::cut(p.last(), '=') {
            Some(kv) => override_pairs(p.drop_last()).push((text::trimmed(kv.0), text::trimmed(kv.1))),
            None => override_pairs(p.drop_last()),
        }
    }
}

/// The views of a list of pairs of strings.
pub open spec fn text_pairs(v: Seq<(String, String)>) -> Seq<(Seq<char>, Seq<char>)> {
    Seq::new(v.len(), |i: int| (v[i].0@, v[i].1@))
}

/// The types and rates, as written, that a text like `rt_QF=7,rt_QG=3` names.
pub fn rate_overrides(spec: &str) -> (r: Vec<(String, String)>)
    ensures
        text_pairs(r@) == override_pairs(text::pieces(spec@, ',')),
{
    let pairs = text::split(spec, ',');
    let ghost all = text::texts(pairs@);
    let mut out: Vec<(String, String)> = Vec::new();
    let mut i: usize = 0;
    while i < pairs.len()
        invariant
            i <= pairs@.len(),
            all == text::texts(pairs@),
            text_pairs(out@) == override_pairs(all.take(i as int)),
        decreases pairs@.len() - i,
    {
        let ghost done = text_pairs(out@);
        assert(all.take(i + 1).drop_last() == all.take(i as int));
        match text::split_once(pairs[i].as_str(), '=') {
            Some(kv) => {
                let k = text::trim(kv.0.as_str());
                let v = text::trim(kv.1.as_str());
                out.push((k, v));
                assert(text_pairs(out@) == done.push((k@, v@)));
            },
            None => {},
        }
        i += 1;
    }
    assert(all.take(i as int) == all);
    out
}

// ---------------------------------------------------------------------------
// jobs
// ---------------------------------------------------------------------------

/// A measured number: a number of the document, or a text that is to be read as one.
pub enum Reading {
    Value(Real),
    Text(String),
}

/// One job.
pub struct Job {
    pub id: String,
    pub short_id: String,
    pub name: String,
    pub owner: String,
    pub state: State,
    pub queue: String,
    pub group: String,
    pub service: String,
    pub rtype: Option<String>,
    pub nodect: u64,
    pub ncpus: u64,
    pub ngpus: u64,
    pub mem_req: String,
    pub walltime_req: Option<u64>,
    pub walltime_used: Option<u64>,
    pub cpupercent: Option<Reading>,
    pub mem_used_kb: Option<u64>,
    pub nodes: Vec<String>,
    pub log_path: Option<String>,
    pub error_path: Option<String>,
    pub join_oe: bool,
    pub qtime: Option<i64>,
    pub stime: Option<i64>,
    pub est_start: Option<String>,
    pub comment: Option<String>,
    pub exit_status: Option<i64>,
    pub submit_args: Option<String>,
}

/// The view of a string, where there is one.
pub open spec fn opt_text(s: Option<String>) -> Option<Seq<char>> {
    match s {
        Some(t) => Some(t@),
        None => None,
    }
}

/// `t`, or `otherwise` where there is none.
pub open spec fn text_or(t: Option<Seq<char>>, otherwise: Seq<char>) -> Seq<char> {
    match t {
        Some(x) => x,
        None => otherwise,
    }
}

/// The resource type of a job with its node count, where that is above 1.
pub open spec fn resource_text(rtype: Option<Seq<char>>, nodect: u64) -> Seq<char> {
    match rtype {
        Some(t) => if nodect > 1 {
            t + "×"@ + digits::decimal(nodect as nat)
        } else {
            t
        },
        None => "-"@,
    }
}

/// The seconds that a job has waited by `now`, where it has been submitted and not
/// started. The difference wraps around at 64 bits.
pub open spec fn waited(qtime: Option<i64>, stime: Option<i64>, now: i64) -> Option<u64> {
    match (qtime, stime) {
        (Some(q), None) => {
            let d = wrap::signed_word(now - q);
            Some(
                (if d < 0 {
                    0
                } else {
                    d
                }) as u64,
            )
        },
        _ => None,
    }
}

impl Job {
    /// The requested walltime consumed, as a fraction, where both are known and the limit
    /// is above 0.
    pub open spec fn frac_spec(&self) -> Option<(u64, u64)> {
        match (self.walltime_used, self.walltime_req) {
            (Some(u), Some(q)) => if q > 0 {
                Some((u, q))
            } else {
                None
            },
            _ => None,
        }
    }

    /// The requested walltime consumed, as a fraction: its numerator and denominator.
    pub fn walltime_frac(&self) -> (r: Option<(u64, u64)>)
        ensures
            r == self.frac_spec(),
    {
        match (self.walltime_used, self.walltime_req) {
            (Some(u), Some(q)) => if q > 0 {
                Some((u, q))
            } else {
                None
            },
            _ => None,
        }
    }

    /// The seconds left until the walltime limit.
    pub fn walltime_left(&self) -> (r: Option<u64>)
        ensures
            r == match (self.walltime_used, self.walltime_req) {
                (Some(u), Some(q)) => Some(
                    (if q > u {
                        q - u
                    } else {
                        0
                    }) as u64,
                ),
                _ => None,
            },
    {
        match (self.walltime_used, self.walltime_req) {
            (Some(u), Some(q)) => Some(q.saturating_sub(u)),
            _ => None,
        }
    }

    /// Points per hour for the whole allocation: the rate of a node, and the node count
    /// to multiply it by.
    pub open spec fn rate_spec(&self, rates: Map<Seq<char>, Real>) -> Option<(Real, u64)> {
        match self.rtype {
            Some(t) => if rates.dom().contains(t@) {
                Some(
                    (
                        rates[t@],
                        if self.nodect > 1 {
                            self.nodect
                        } else {
                            1
                        },
                    ),
                )
            } else {
                None
            },
            None => None,
        }
    }

    /// Points per hour for the whole allocation: the rate of a node, and the node count
    /// to multiply it by.
    pub fn point_rate(&self, rates: &RateCard) -> (r: Option<(Real, u64)>)
        ensures
            r == self.rate_spec(rates@),
    {
        match &self.rtype {
            Some(t) => match rates.get(t.as_str()) {
                Some(per_node) => Some(
                    (
                        per_node,
                        if self.nodect > 1 {
                            self.nodect
                        } else {
                            1
                        },
                    ),
                ),
                None => None,
            },
            None => None,
        }
    }

    /// Points consumed so far: the rate of a node, the node count and the seconds to
    /// multiply it by.
    pub fn points_spent(&self, rates: &RateCard) -> (r: Option<(Real, u64, u64)>)
        ensures
            r == match (self.rate_spec(rates@), self.walltime_used) {
                (Some(p), Some(used)) => Some((p.0, p.1, used)),
                _ => None,
            },
    {
        match (self.point_rate(rates), self.walltime_used) {
            (Some(p), Some(used)) => Some((p.0, p.1, used)),
            _ => None,
        }
    }

    /// Points reserved up-front by the walltime limit: the rate of a node, the node count
    /// and the seconds to multiply it by.
    pub fn points_reserved(&self, rates: &RateCard) -> (r: Option<(Real, u64, u64)>)
        ensures
            r == match (self.rate_spec(rates@), self.walltime_req) {
                (Some(p), Some(req)) => Some((p.0, p.1, req)),
                _ => None,
            },
    {
        match (self.point_rate(rates), self.walltime_req) {
            (Some(p), Some(req)) => Some((p.0, p.1, req)),
            _ => None,
        }
    }

    /// How long a not-yet-started job has been waiting.
    pub fn wait_secs(&self, now: i64) -> (r: Option<u64>)
        ensures
            r == waited(self.qtime, self.stime, now),
    {
        match (self.qtime, self.stime) {
            (Some(q), None) => {
                let d: i64 = wrap::low_signed_word(now as i128 - q as i128);
                Some(
                    if d < 0 {
                        0
                    } else {
                        d as u64
                    },
                )
            },
            _ => None,
        }
    }

    /// The resource type, with the node count where there are several.
    pub fn resource_label(&self) -> (r: String)
        ensures
            r@ == resource_text(opt_text(self.rtype), self.nodect),
    {
        match &self.rtype {
            Some(t) => {
                let mut s = t.clone();
                if self.nodect > 1 {
                    s.append("×");
                    s.append(digits::show(self.nodect).as_str());
                }
                s
            },
            None => "-".to_owned(),
        }
    }
}

// ---------------------------------------------------------------------------
// reading jobs
// ---------------------------------------------------------------------------

/// The text of a string or of a number; no other value has one.
pub open spec fn scalar_text(j: Option<JsonView>) -> Option<Seq<char>> {
    match j {
        Some(JsonView::Text(t)) => Some(t),
        Some(JsonView::Number(n)) => Some(n.text),
        _ => None,
    }
}

/// The text of the attribute `key`.
pub open spec fn attribute(j: JsonView, key: Seq<char>) -> Option<Seq<char>> {
    scalar_text(json::member(j, key))
}

/// The count that the attribute `key` is, or says.
pub open spec fn count(j: JsonView, key: Seq<char>) -> Option<u64> {
    match json::member(j, key) {
        Some(JsonView::Number(n)) => n.unsigned,
        Some(JsonView::Text(t)) => match digits::read_nat(t, u64::MAX as nat) {
            Some(n) => Some(n as u64),
            None => None,
        },
        _ => None,
    }
}

/// Is `r` what the attribute `key` measures?
pub open spec fn measures(r: Option<Reading>, j: JsonView, key: Seq<char>) -> bool {
    match json::member(j, key) {
        Some(JsonView::Number(n)) => match n.value {
            Some(v) => r == Some(Reading::Value(v)),
            None => r is None,
        },
        Some(JsonView::Text(t)) => r matches Some(Reading::Text(x)) && x@ == t,
        _ => r is None,
    }
}

/// The text of the attribute `key`.
fn s(v: &Json, key: &str) -> (r: Option<String>)
    ensures
        opt_text(r) == attribute(v@, key@),
{
    match v.get(key) {
        Some(Json::Text(x)) => Some(x.clone()),
        Some(Json::Number(n)) => Some(n.text.clone()),
        _ => None,
    }
}

/// The text of the attribute `key`, or `otherwise` where it has none.
fn s_or(v: &Json, key: &str, otherwise: &str) -> (r: String)
    ensures
        r@ == text_or(attribute(v@, key@), otherwise@),
{
    match s(v, key) {
        Some(t) => t,
        None => otherwise.to_owned(),
    }
}

/// The count that the attribute `key` is, or says.
fn u(v: &Json, key: &str) -> (r: Option<u64>)
    ensures
        r == count(v@, key@),
{
    match v.get(key) {
        Some(Json::Number(n)) => n.unsigned,
        Some(Json::Text(x)) => digits::read_u64(x.as_str()),
        _ => None,
    }
}

/// What the attribute `key` measures.
fn f(v: &Json, key: &str) -> (r: Option<Reading>)
    ensures
        measures(r, v@, key@),
{
    match v.get(key) {
        Some(Json::Number(n)) => match n.value {
            Some(x) => Some(Reading::Value(x)),
            None => None,
        },
        Some(Json::Text(x)) => Some(Reading::Text(x.clone())),
        _ => None,
    }
}

/// The first key that names a resource type.
pub open spec fn first_type(m: Seq<(Seq<char>, JsonView)>) -> Option<Seq<char>>
    decreases m.len(),
{
    if m.len() == 0 {
        None
    } else if text::begins(m[0].0, "rt_"@) {
        Some(m[0].0)
    } else {
        first_type(m.skip(1))
    }
}

/// The `rt_*` key inside `Resource_List` is the resource type the job asked for.
pub fn resource_type(rl: &Json) -> (r: Option<String>)
    ensures
        opt_text(r) == first_type(json::members(rl@)),
{
    match rl {
        Json::Object(m) => {
            let ghost all = json::members(rl@);
            let mut i: usize = 0;
            assert(all.skip(0) == all);
            while i < m.len()
                invariant
                    i <= m@.len(),
                    all == json::members(rl@),
                    *rl == Json::Object(*m),
                    all.len() == m@.len(),
                    first_type(all.skip(i as int)) == first_type(all),
                decreases m@.len() - i,
            {
                assert(all.skip(i as int)[0] == (m@[i as int].0@, m@[i as int].1@));
                assert(all.skip(i as int).skip(1) == all.skip(i + 1));
                if text::starts_with(m[i].0.as_str(), "rt_") {
                    return Some(m[i].0.clone());
                }
                i += 1;
            }
            None
        },
        _ => None,
    }
}

/// Is `c` a parenthesis?
pub open spec fn is_paren(c: char) -> bool {
    c == '(' || c == ')'
}

/// `s` without the parentheses at its start.
pub open spec fn unparen_start(s: Seq<char>) -> Seq<char>
    decreases s.len(),
{
    if s.len() > 0 && is_paren(s[0]) {
        unparen_start(s.skip(1))
    } else {
        s
    }
}

/// `s` without the parentheses at its end.
pub open spec fn unparen_end(s: Seq<char>) -> Seq<char>
    decreases s.len(),
{
    if s.len() > 0 && is_paren(s.last()) {
        unparen_end(s.drop_last())
    } else {
        s
    }
}

/// The host of one chunk of an execution list: what stands before `:` and `[`.
pub open spec fn host_of(chunk: Seq<char>) -> Seq<char> {
    text::trimmed(text::before(text::before(chunk, ':'), '['))
}

/// The hosts of the chunks, each once, in the order of their first chunks.
pub open spec fn hosts(chunks: Seq<Seq<char>>) -> Seq<Seq<char>>
    decreases chunks.len(),
{
    if chunks.len() == 0 {
        seq![]
    } else {
        let rest = hosts(chunks.drop_last());
        let h = host_of(chunks.last());
        if h.len() == 0 || rest.contains(h) {
            rest
        } else {
            rest.push(h)
        }
    }
}

/// The hosts of an execution list.
pub open spec fn nodes_of(exec_vnode: Seq<char>) -> Seq<Seq<char>> {
    hosts(text::pieces(unparen_end(unparen_start(exec_vnode)), '+'))
}

/// No host is listed twice, and none is empty.
pub proof fn law_hosts(chunks: Seq<Seq<char>>)
    ensures
        hosts(chunks).no_duplicates(),
        forall|i: int| 0 <= i < hosts(chunks).len() ==> (#[trigger] hosts(chunks)[i]).len() > 0,
        forall|i: int|
            0 <= i < chunks.len() && host_of(#[trigger] chunks[i]).len() > 0 ==> hosts(
                chunks,
            ).contains(host_of(chunks[i])),
    decreases chunks.len(),
{
    if chunks.len() > 0 {
        let before = chunks.drop_last();
        let rest = hosts(before);
        let all = hosts(chunks);
        let h = host_of(chunks.last());
        law_hosts(before);
        assert forall|i: int| 0 <= i < chunks.len() && host_of(
            #[trigger] chunks[i],
        ).len() > 0 implies all.contains(host_of(chunks[i])) by {
            if i < before.len() {
                assert(before[i] == chunks[i]);
                let k = choose|k: int| 0 <= k < rest.len() && rest[k] == host_of(chunks[i]);
                assert(all[k] == rest[k]);
            } else if !rest.contains(h) {
                assert(all[all.len() - 1] == h);
            }
        }
    }
}

/// Is `s` one of the texts?
pub fn among(v: &Vec<String>, s: &str) -> (r: bool)
    ensures
        r == text::texts(v@).contains(s@),
{
    let mut i: usize = 0;
    while i < v.len()
        invariant
            i <= v@.len(),
            forall|k: int| 0 <= k < i ==> (#[trigger] v@[k])@ != s@,
        decreases v@.len() - i,
    {
        if text::same(v[i].as_str(), s) {
            assert(text::texts(v@)[i as int] == s@);
            return true;
        }
        i += 1;
    }
    proof {
        if text::texts(v@).contains(s@) {
            let k = choose|k: int| 0 <= k < text::texts(v@).len() && text::texts(v@)[k] == s@;
            assert(v@[k]@ == s@);
        }
    }
    false
}

/// `"(qh250[0]:ngpus=2:...+qh250[1]:ngpus=2:...)"` -> `["qh250"]`.
pub fn parse_nodes(exec_vnode: &str) -> (r: Vec<String>)
    ensures
        text::texts(r@) == nodes_of(exec_vnode@),
{
    let v = text::chars_of(exec_vnode);
    let mut from: usize = 0;
    assert(v@.skip(0) == v@);
    while from < v.len() && (v[from] == '(' || v[from] == ')')
        invariant
            from <= v@.len(),
            unparen_start(v@.skip(from as int)) == unparen_start(v@),
        decreases v@.len() - from,
    {
        assert(v@.skip(from as int).skip(1) == v@.skip(from + 1));
        from += 1;
    }
    let ghost inner = v@.skip(from as int);
    let mut to: usize = v.len();
    assert(v@.subrange(from as int, to as int) == inner);
    while to > from && (v[to - 1] == '(' || v[to - 1] == ')')
        invariant
            from <= to <= v@.len(),
            unparen_end(v@.subrange(from as int, to as int)) == unparen_end(inner),
        decreases to,
    {
        assert(v@.subrange(from as int, to as int).drop_last() == v@.subrange(from as int, to - 1));
        to -= 1;
    }
    let chunks = text::split(text::text_of(&v, from, to).as_str(), '+');
    let ghost all = text::texts(chunks@);
    let mut out: Vec<String> = Vec::new();
    let mut i: usize = 0;
    assert(all.take(0) == Seq::<Seq<char>>::empty());
    while i < chunks.len()
        invariant
            i <= chunks@.len(),
            all == text::texts(chunks@),
            text::texts(out@) == hosts(all.take(i as int)),
        decreases chunks@.len() - i,
    {
        assert(all.take(i + 1).drop_last() == all.take(i as int));
        let host = text::trim(text::head(text::head(chunks[i].as_str(), ':').as_str(), '[').as_str());
        let ghost done = text::texts(out@);
        if !host.as_str().is_empty() && !among(&out, host.as_str()) {
            out.push(host);
            assert(text::texts(out@) == done.push(host@));
        }
        i += 1;
    }
    assert(all.take(i as int) == all);
    out
}

/// The host before an absolute path goes.
pub proof fn law_host_goes(host: Seq<char>, path: Seq<char>)
    requires
        !host.contains(':'),
        path.len() > 0,
        path[0] == '/',
    ensures
        hostless(host + seq![':'] + path) == path,
{
    let p = host + seq![':'] + path;
    text::lemma_first_at(p, ':');
    let n = text::first_at(p, ':');
    assert(p[host.len() as int] == ':');
    if n < host.len() {
        assert(host[n] == ':');
    }
    assert(p.skip(n + 1) == path);
}

/// A path without the host before it.
pub open spec fn hostless(p: Seq<char>) -> Seq<char> {
    match text::cut(p, ':') {
        Some(c) => if c.1.len() > 0 && c.1[0] == '/' {
            c.1
        } else {
            p
        },
        None => p,
    }
}

/// `"qes04:/groups/.../x.sh.o190456"` -> drop the submitting-host prefix.
pub fn strip_host(p: String) -> (r: String)
    ensures
        r@ == hostless(p@),
{
    match text::split_once(p.as_str(), ':') {
        Some(c) => {
            if !c.1.as_str().is_empty() && c.1.as_str().get_char(0) == '/' {
                c.1
            } else {
                p
            }
        },
        None => p,
    }
}

/// The path that the attribute `key` says, without the host before it.
pub open spec fn path_attribute(j: JsonView, key: Seq<char>) -> Option<Seq<char>> {
    match attribute(j, key) {
        Some(p) => Some(hostless(p)),
        None => None,
    }
}

/// The duration that the attribute `key` says.
pub open spec fn duration_attribute(j: JsonView, key: Seq<char>) -> Option<u64> {
    match attribute(j, key) {
        Some(t) => fmt::duration(t),
        None => None,
    }
}

/// The time that the attribute `key` says.
pub open spec fn date_attribute(j: JsonView, key: Seq<char>, tz: int) -> Option<i64> {
    match attribute(j, key) {
        Some(t) => fmt::pbs_date(t, tz),
        None => None,
    }
}

/// The hosts of a job: those of `exec_vnode`, or else of `exec_host`.
pub open spec fn job_nodes(j: JsonView) -> Seq<Seq<char>> {
    match attribute(j, "exec_vnode"@) {
        Some(v) => nodes_of(v),
        None => match attribute(j, "exec_host"@) {
            Some(v) => nodes_of(v),
            None => seq![],
        },
    }
}

/// Is `job` the job `id` that `j` describes, with times at `tz` seconds east of Greenwich?
pub open spec fn describes(j: JsonView, id: Seq<char>, tz: int, job: Job) -> bool {
    let rl = json::member_or_null(j, "Resource_List"@);
    let ru = json::member_or_null(j, "resources_used"@);
    let vars = json::member_or_null(j, "Variable_List"@);
    let join = attribute(j, "Join_Path"@);
    &&& job.id@ == id
    &&& job.short_id@ == text::before(id, '.')
    &&& job.name@ == text_or(attribute(j, "Job_Name"@), "-"@)
    &&& job.owner@ == text::before(text_or(attribute(j, "Job_Owner"@), ""@), '@')
    &&& job.state == state_of(text_or(attribute(j, "job_state"@), ""@))
    &&& job.queue@ == text_or(attribute(j, "queue"@), ""@)
    &&& job.group@ == text_or(
        attribute(j, "group_list"@),
        text_or(attribute(vars, "GROUP_NAME"@), ""@),
    )
    &&& job.service@ == text_or(attribute(vars, "SERVICE_TYPE"@), ""@)
    &&& opt_text(job.rtype) == first_type(json::members(rl))
    &&& job.nodect == match count(rl, "nodect"@) {
        Some(n) => n,
        None => 1,
    }
    &&& job.ncpus == match count(rl, "ncpus"@) {
        Some(n) => n,
        None => 0,
    }
    &&& job.ngpus == match count(rl, "ngpus"@) {
        Some(n) => n,
        None => 0,
    }
    &&& job.mem_req@ == text_or(attribute(rl, "mem"@), ""@)
    &&& job.walltime_req == duration_attribute(rl, "walltime"@)
    &&& job.walltime_used == duration_attribute(ru, "walltime"@)
    &&& measures(job.cpupercent, ru, "cpupercent"@)
    &&& job.mem_used_kb == match attribute(ru, "mem"@) {
        Some(m) => fmt::size_kb(m),
        None => None,
    }
    &&& text::texts(job.nodes@) == job_nodes(j)
    &&& opt_text(job.log_path) == path_attribute(j, "Output_Path"@)
    &&& opt_text(job.error_path) == path_attribute(j, "Error_Path"@)
    &&& job.join_oe == (join == Some("oe"@) || join == Some("eo"@))
    &&& job.qtime == date_attribute(j, "qtime"@, tz)
    &&& job.stime == date_attribute(j, "stime"@, tz)
    &&& opt_text(job.est_start) == json::text_in(json::member(json::member_or_null(j, "estimated"@), "start_time"@))
    &&& opt_text(job.comment) == attribute(j, "comment"@)
    &&& job.exit_status == json::signed_in(json::member(j, "Exit_status"@))
    &&& opt_text(job.submit_args) == attribute(j, "Submit_arguments"@)
}

/// The path that the attribute `key` says, without the host before it.
fn path(v: &Json, key: &str) -> (r: Option<String>)
    ensures
        opt_text(r) == path_attribute(v@, key@),
{
    match s(v, key) {
        Some(p) => Some(strip_host(p)),
        None => None,
    }
}

/// The duration that the attribute `key` says.
fn walltime(v: &Json, key: &str) -> (r: Option<u64>)
    ensures
        r == duration_attribute(v@, key@),
{
    match s(v, key) {
        Some(t) => fmt::parse_hms(t.as_str()),
        None => None,
    }
}

/// The time that the attribute `key` says.
fn date(v: &Json, key: &str, tz: i64) -> (r: Option<i64>)
    ensures
        r == date_attribute(v@, key@, tz as int),
{
    match s(v, key) {
        Some(t) => fmt::parse_pbs_date(t.as_str(), tz),
        None => None,
    }
}

/// Reads one job.
pub fn parse_job(id: &str, j: &Json, tz: i64) -> (r: Job)
    ensures
        describes(j@, id@, tz as int, r),
{
    let empty = Json::Null;
    let rl = match j.get("Resource_List") {
        Some(v) => v,
        None => &empty,
    };
    let ru = match j.get("resources_used") {
        Some(v) => v,
        None => &empty,
    };
    let vars = match j.get("Variable_List") {
        Some(v) => v,
        None => &empty,
    };
    assert(rl@ == json::member_or_null(j@, "Resource_List"@));
    assert(ru@ == json::member_or_null(j@, "resources_used"@));
    assert(vars@ == json::member_or_null(j@, "Variable_List"@));
    let estimated = match j.get("estimated") {
        Some(v) => v,
        None => &empty,
    };
    let owner = text::head(s_or(j, "Job_Owner", "").as_str(), '@');
    // "oe"/"eo" fold stderr into the output file; "n" keeps a separate .e file.
    let join_oe = match s(j, "Join_Path") {
        Some(t) => text::same(t.as_str(), "oe") || text::same(t.as_str(), "eo"),
        None => false,
    };
    let nodes = match s(j, "exec_vnode") {
        Some(v) => parse_nodes(v.as_str()),
        None => match s(j, "exec_host") {
            Some(v) => parse_nodes(v.as_str()),
            None => Vec::new(),
        },
    };
    assert(text::texts(nodes@) == job_nodes(j@));
    let group = match s(j, "group_list") {
        Some(g) => g,
        None => s_or(vars, "GROUP_NAME", ""),
    };
    let est_start = match json::as_text(estimated.get("start_time")) {
        Some(t) => Some(t.clone()),
        None => None,
    };
    let mem_used_kb = match s(ru, "mem") {
        Some(m) => fmt::parse_size_kb(m.as_str()),
        None => None,
    };
    Job {
        id: id.to_owned(),
        short_id: text::head(id, '.'),
        name: s_or(j, "Job_Name", "-"),
        owner,
        state: State::from_code(s_or(j, "job_state", "").as_str()),
        queue: s_or(j, "queue", ""),
        group,
        service: s_or(vars, "SERVICE_TYPE", ""),
        rtype: resource_type(rl),
        nodect: match u(rl, "nodect") {
            Some(n) => n,
            None => 1,
        },
        ncpus: match u(rl, "ncpus") {
            Some(n) => n,
            None => 0,
        },
        ngpus: match u(rl, "ngpus") {
            Some(n) => n,
            None => 0,
        },
        mem_req: s_or(rl, "mem", ""),
        walltime_req: walltime(rl, "walltime"),
        walltime_used: walltime(ru, "walltime"),
        cpupercent: f(ru, "cpupercent"),
        mem_used_kb,
        nodes,
        log_path: path(j, "Output_Path"),
        error_path: path(j, "Error_Path"),
        join_oe,
        qtime: date(j, "qtime", tz),
        stime: date(j, "stime", tz),
        est_start,
        comment: s(j, "comment"),
        exit_status: json::as_signed(j.get("Exit_status")),
        submit_args: s(j, "Submit_arguments"),
    }
}

// ---------------------------------------------------------------------------
// asking for jobs
// ---------------------------------------------------------------------------

/// The `qstat` to run: the stock binary where it is there. The /usr/local/bin wrapper is
/// fine for -f -F json but the stock one is what the JSON schema is documented against.
pub fn qstat_bin(stock_exists: bool) -> (r: String)
    ensures
        r@ == (if stock_exists {
            "/opt/pbs/bin/qstat"@
        } else {
            "qstat"@
        }),
{
    if stock_exists {
        "/opt/pbs/bin/qstat".to_owned()
    } else {
        "qstat".to_owned()
    }
}

/// The options of `qstat`: JSON in full, with history or without.
pub open spec fn qstat_options(history: bool) -> Seq<Seq<char>> {
    seq!["-f"@, "-F"@, "json"@] + (if history {
        seq!["-x"@]
    } else {
        seq![]
    })
}

/// `qstat` is never told to filter by user: the site's wrapper rejects `-u`.
pub proof fn law_no_user_option(history: bool)
    ensures
        !qstat_options(history).contains("-u"@),
{
    reveal_strlit("-u");
    reveal_strlit("-f");
    reveal_strlit("-F");
    reveal_strlit("json");
    reveal_strlit("-x");
    let o = qstat_options(history);
    if o.contains("-u"@) {
        let k = choose|k: int| 0 <= k < o.len() && o[k] == "-u"@;
        assert(o[k][1] == 'u');
    }
}

/// The arguments of `qstat`: its options, and the ids of the jobs asked for.
pub fn qstat_args(history: bool, ids: &Vec<String>) -> (r: Vec<String>)
    ensures
        text::texts(r@) == qstat_options(history) + text::texts(ids@),
{
    let mut args: Vec<String> = Vec::new();
    args.push("-f".to_owned());
    args.push("-F".to_owned());
    args.push("json".to_owned());
    if history {
        args.push("-x".to_owned());
    }
    let ghost options = text::texts(args@);
    assert(options == qstat_options(history));
    let mut i: usize = 0;
    while i < ids.len()
        invariant
            i <= ids@.len(),
            text::texts(args@) == options + text::texts(ids@).take(i as int),
        decreases ids@.len() - i,
    {
        let ghost done = text::texts(args@);
        args.push(ids[i].clone());
        assert(text::texts(args@) == done.push(ids@[i as int]@));
        i += 1;
    }
    assert(text::texts(ids@).take(i as int) == text::texts(ids@));
    args
}

/// What one answer of `qstat` says.
pub struct Snapshot {
    pub server: String,
    pub timestamp: i64,
    pub jobs: Vec<Job>,
}

/// Are `jobs` the jobs that the members describe, one each, in their order?
pub open spec fn lists(m: Seq<(Seq<char>, JsonView)>, tz: int, jobs: Seq<Job>) -> bool {
    &&& jobs.len() == m.len()
    &&& forall|i: int| 0 <= i < m.len() ==> describes(m[i].1, m[i].0, tz, #[trigger] jobs[i])
}

/// The message for a document that is no JSON.
pub open spec fn bad_json(e: Seq<char>) -> Seq<char> {
    "could not parse qstat JSON ("@ + e
        + "). PBS emits invalid JSON when a job attribute contains a quote or backslash; try naming the job ids explicitly, e.g. `qrich <jobid>`."@
}

/// The message for an answer without jobs, from what `qstat` said on stderr.
pub open spec fn no_jobs(complaint: Seq<char>, history: bool, ids_given: bool) -> Seq<char> {
    if ids_given && !history {
        complaint + "\n       finished jobs need history: re-run with -x"@
    } else {
        complaint
    }
}

/// The snapshot that a document describes. An answer without jobs is an error where
/// `qstat` complained on stderr: it still prints a JSON envelope when it rejects a job id.
pub open spec fn answers(
    root: JsonView,
    stderr: Seq<char>,
    history: bool,
    ids_given: bool,
    tz: int,
    r: Result<Snapshot, String>,
) -> bool {
    let jobs = json::members(json::member_or_null(root, "Jobs"@));
    let complaint = text::trimmed(stderr);
    match r {
        Ok(snap) => {
            &&& jobs.len() > 0 || complaint.len() == 0
            &&& snap.server@ == text_or(json::text_in(json::member(root, "pbs_server"@)), "pbs"@)
            &&& snap.timestamp == match json::signed_in(json::member(root, "timestamp"@)) {
                Some(t) => t,
                None => 0,
            }
            &&& lists(jobs, tz, snap.jobs@)
        },
        Err(e) => {
            &&& jobs.len() == 0 && complaint.len() > 0
            &&& e@ == no_jobs(complaint, history, ids_given)
        },
    }
}

/// Reads the snapshot that a document describes.
pub fn read_snapshot(
    root: &Json,
    stderr: &str,
    history: bool,
    ids_given: bool,
    tz: i64,
) -> (r: Result<Snapshot, String>)
    ensures
        answers(root@, stderr@, history, ids_given, tz as int, r),
{
    let server = match json::as_text(root.get("pbs_server")) {
        Some(t) => t.clone(),
        None => "pbs".to_owned(),
    };
    let timestamp = match json::as_signed(root.get("timestamp")) {
        Some(t) => t,
        None => 0,
    };
    let mut jobs: Vec<Job> = Vec::new();
    let ghost all = json::members(json::member_or_null(root@, "Jobs"@));
    match root.get("Jobs") {
        Some(Json::Object(m)) => {
            let mut i: usize = 0;
            while i < m.len()
                invariant
                    i <= m@.len(),
                    all == json::members(json::json_view(Json::Object(*m))),
                    jobs@.len() == i,
                    forall|k: int|
                        0 <= k < i ==> describes(all[k].1, all[k].0, tz as int, #[trigger] jobs@[k]),
                decreases m@.len() - i,
            {
                assert(all[i as int] == (m@[i as int].0@, m@[i as int].1@));
                jobs.push(parse_job(m[i].0.as_str(), &m[i].1, tz));
                i += 1;
            }
        },
        _ => {},
    }
    if jobs.len() == 0 {
        let err = text::trim(stderr);
        if !err.as_str().is_empty() {
            let mut e = err;
            if ids_given && !history {
                e.append("\n       finished jobs need history: re-run with -x");
            }
            return Err(e);
        }
    }
    Ok(Snapshot { server, timestamp, jobs })
}

/// Reads what `qstat` printed.
pub fn fetch(stdout: &[u8], stderr: &[u8], history: bool, ids: &Vec<String>, tz: i64) -> (r: Result<
    Snapshot,
    String,
>)
    ensures
        ({
            let out = text::utf8_lossy(stdout@);
            let err = text::utf8_lossy(stderr@);
            if text::trimmed(out).len() == 0 {
                r matches Err(e) && e@ == (if text::trimmed(err).len() == 0 {
                    "qstat returned nothing"@
                } else {
                    text::trimmed(err)
                })
            } else {
                match json::json_read(out) {
                    Err(e) => r matches Err(m) && m@ == bad_json(e),
                    Ok(root) => answers(root, err, history, ids@.len() > 0, tz as int, r),
                }
            }
        }),
{
    let out = text::lossy(stdout);
    let err = text::lossy(stderr);
    if text::trim(out.as_str()).as_str().is_empty() {
        let e = text::trim(err.as_str());
        if e.as_str().is_empty() {
            return Err("qstat returned nothing".to_owned());
        }
        return Err(e);
    }
    match json::parse(out.as_str()) {
        Ok(root) => read_snapshot(&root, err.as_str(), history, ids.len() > 0, tz),
        Err(e) => {
            let mut m = "could not parse qstat JSON (".to_owned();
            m.append(e.as_str());
            m.append(
                "). PBS emits invalid JSON when a job attribute contains a quote or backslash; try naming the job ids explicitly, e.g. `qrich <jobid>`.",
            );
            Err(m)
        },
    }
}

// ---------------------------------------------------------------------------
// balances
// ---------------------------------------------------------------------------

/// A row of `show_point`: a group, and its numbers as written, without separators.
pub struct PointRow {
    pub group: String,
    pub used: String,
    pub granted: String,
}

/// What a row of `show_point` says: group, points used, points granted.
pub open spec fn row_texts(r: PointRow) -> (Seq<char>, Seq<char>, Seq<char>) {
    (r.group@, r.used@, r.granted@)
}

/// What a line of `show_point` says. Group rows start at column 0 and have six fields;
/// per-user rows are indented, and one row is the heading.
pub open spec fn point_row(line: Seq<char>) -> Option<(Seq<char>, Seq<char>, Seq<char>)> {
    let f = text::words(line);
    if (line.len() > 0 && text::is_space(line[0])) || text::trimmed(line).len() == 0 {
        None
    } else if f.len() < 6 || f[0] == "Group"@ {
        None
    } else {
        Some((f[0], text::without(f[3], ','), text::without(f[4], ',')))
    }
}

/// What the rows among the lines say.
pub open spec fn point_rows(lines: Seq<Seq<char>>) -> Seq<(Seq<char>, Seq<char>, Seq<char>)>
    decreases lines.len(),
{
    if lines.len() == 0 {
        seq![]
    } else {
        match point_row(lines.last()) {
            Some(r) => point_rows(lines.drop_last()).push(r),
            None => point_rows(lines.drop_last()),
        }
    }
}

/// `s` without its commas.
pub fn strip_commas(s: &str) -> (r: String)
    ensures
        r@ == text::without(s@, ','),
{
    text::remove_char(s, ',')
}

/// Reads one line of `show_point`.
fn read_point_row(line: &str) -> (r: Option<PointRow>)
    ensures
        match r {
            Some(p) => point_row(line@) == Some(row_texts(p)),
            None => point_row(line@) is None,
        },
{
    if (!line.is_empty() && text::space(line.get_char(0))) || text::trim(line).as_str().is_empty() {
        return None;
    }
    let f = text::split_whitespace(line);
    let ghost w = text::words(line@);
    assert(w.len() == f@.len());
    if f.len() < 6 {
        return None;
    }
    assert(w[0] == f@[0]@ && w[3] == f@[3]@ && w[4] == f@[4]@);
    if text::same(f[0].as_str(), "Group") {
        return None;
    }
    Some(
        PointRow {
            group: f[0].clone(),
            used: strip_commas(f[3].as_str()),
            granted: strip_commas(f[4].as_str()),
        },
    )
}

/// Parse `show_point`. Group rows start at column 0; per-user rows are indented
/// with `|-` / `` `- `` and are skipped.
pub fn show_point(stdout: &[u8]) -> (r: Vec<PointRow>)
    ensures
        r@.map_values(|p: PointRow| row_texts(p)) == point_rows(text::text_lines(text::utf8_lossy(stdout@))),
{
    let text = text::lossy(stdout);
    read_points(text.as_str())
}

/// Reads the rows of a text of `show_point`.
pub fn read_points(text: &str) -> (r: Vec<PointRow>)
    ensures
        r@.map_values(|p: PointRow| row_texts(p)) == point_rows(text::text_lines(text@)),
{
    let ls = text::lines(text);
    let ghost all = text::texts(ls@);
    let mut out: Vec<PointRow> = Vec::new();
    let mut i: usize = 0;
    while i < ls.len()
        invariant
            i <= ls@.len(),
            all == text::texts(ls@),
            out@.map_values(|p: PointRow| row_texts(p)) == point_rows(all.take(i as int)),
        decreases ls@.len() - i,
    {
        let ghost done = out@.map_values(|p: PointRow| row_texts(p));
        assert(all.take(i + 1).drop_last() == all.take(i as int));
        match read_point_row(ls[i].as_str()) {
            Some(p) => {
                out.push(p);
                assert(out@.map_values(|p: PointRow| row_texts(p)) == done.push(row_texts(p)));
            },
            None => {},
        }
        i += 1;
    }
    assert(all.take(i as int) == all);
    out
}

// ---------------------------------------------------------------------------
// the terminal and the clock
// ---------------------------------------------------------------------------

/// Can the text be cut behind its bytes 1, 3 and 5, as far as it has them?
pub open spec fn has_offset_shape(z: Seq<char>) -> bool {
    let b = vstd::utf8::encode_utf8(z);
    b.len() >= 5 ==> vstd::utf8::is_char_boundary(b, 1) && vstd::utf8::is_char_boundary(b, 3) && vstd::utf8::is_char_boundary(b, 5)
}

/// The number that the bytes `from..to` of a text write, or 0.
pub open spec fn number_at(z: Seq<char>, from: int, to: int) -> int {
    match digits::read_int(vstd::utf8::decode_utf8(vstd::utf8::encode_utf8(z).subrange(from, to))) {
        Some(n) => n,
        None => 0,
    }
}

/// The seconds east of Greenwich that a text like `+0900` says; 0 where it is shorter than
/// five bytes.
pub open spec fn offset_secs(z: Seq<char>) -> int {
    if vstd::utf8::encode_utf8(z).len() < 5 {
        0
    } else {
        let secs = number_at(z, 1, 3) * 3600 + number_at(z, 3, 5) * 60;
        if z.len() > 0 && z[0] == '-' {
            -secs
        } else {
            secs
        }
    }
}

/// A boundary between characters stays one when whole characters before it go.
proof fn lemma_boundary_behind(b: Seq<u8>, i: int, j: int)
    requires
        vstd::utf8::valid_utf8(b),
        i <= j,
        vstd::utf8::is_char_boundary(b, i),
        vstd::utf8::is_char_boundary(b, j),
    ensures
        0 <= i <= j <= b.len(),
        vstd::utf8::valid_utf8(b.subrange(i, b.len() as int)),
        vstd::utf8::is_char_boundary(b.subrange(i, b.len() as int), j - i),
    decreases b.len(),
{
    if i == 0 {
        assert(b.subrange(0, b.len() as int) == b);
    } else {
        let k = vstd::utf8::length_of_first_scalar(b);
        let rest = vstd::utf8::pop_first_scalar(b);
        lemma_boundary_behind(rest, i - k, j - k);
        assert(rest.subrange(i - k, rest.len() as int) == b.subrange(i, b.len() as int));
    }
}

/// A character takes at least one byte.
proof fn lemma_bytes_per_char(c: Seq<char>)
    ensures
        c.len() <= vstd::utf8::encode_utf8(c).len(),
    decreases c.len(),
{
    if c.len() > 0 {
        lemma_bytes_per_char(c.drop_first());
    }
}

/// Two characters write a number of at most two digits.
proof fn lemma_small_number(s: Seq<char>)
    requires
        s.len() <= 2,
    ensures
        digits::read_int(s) matches Some(n) ==> -99 <= n <= 99,
{
    reveal_with_fuel(digits::digits_value, 3);
    let d = if s.len() > 0 && s[0] == '-' {
        s.skip(1)
    } else {
        digits::unsigned_part(s, '+')
    };
    if digits::all_digits(d) {
        assert(d.len() >= 1 ==> digits::is_digit(d[d.len() - 1]));
        assert(d.len() >= 2 ==> digits::is_digit(d[0]));
    }
}

/// The number that a text of two bytes writes, or 0.
fn two_bytes(t: &str) -> (r: i64)
    requires
        vstd::utf8::encode_utf8(t@).len() == 2,
    ensures
        r == (match digits::read_int(t@) {
            Some(n) => n,
            None => 0,
        }),
        -99 <= r <= 99,
{
    proof {
        lemma_bytes_per_char(t@);
        lemma_small_number(t@);
    }
    match digits::read_i64(t) {
        Some(n) => n,
        None => 0,
    }
}

/// The seconds east of Greenwich that a text like `+0900` says.
pub fn parse_offset(z: &str) -> (r: i64)
    requires
        has_offset_shape(z@),
    ensures
        r == offset_secs(z@),
{
    let bytes = z.as_bytes();
    if bytes.len() < 5 {
        return 0;
    }
    let ghost b = vstd::utf8::encode_utf8(z@);
    proof {
        vstd::utf8::encode_utf8_valid_utf8(z@);
        lemma_boundary_behind(b, 1, 3);
        lemma_boundary_behind(b, 3, 5);
    }
    let behind_sign = z.split_at(1).1;
    let parts = behind_sign.split_at(2);
    let hours = parts.0;
    assert(vstd::utf8::encode_utf8(hours@) == b.subrange(1, 3));
    assert(vstd::utf8::encode_utf8(parts.1@) == b.subrange(3, b.len() as int));
    let minutes = parts.1.split_at(2).0;
    assert(vstd::utf8::encode_utf8(minutes@) == b.subrange(3, 5));
    proof {
        vstd::utf8::encode_utf8_decode_utf8(hours@);
        vstd::utf8::encode_utf8_decode_utf8(minutes@);
    }
    let h: i64 = two_bytes(hours);
    let m: i64 = two_bytes(minutes);
    let secs: i64 = h * 3600 + m * 60;
    if z.get_char(0) == '-' {
        -secs
    } else {
        secs
    }
}

/// Local UTC offset in seconds, from what `date +%z` printed (PBS prints local
/// timestamps). `None` where the text cannot be cut into sign, hours and minutes.
pub fn tz_offset(stdout: &[u8]) -> (r: Option<i64>)
    ensures
        ({
            let z = text::trimmed(text::utf8_lossy(stdout@));
            match r {
                Some(secs) => has_offset_shape(z) && secs == offset_secs(z),
                None => !has_offset_shape(z),
            }
        }),
{
    let z = text::trim(text::lossy(stdout).as_str());
    let t = z.as_str();
    if t.as_bytes().len() >= 5 && !(t.is_char_boundary(1) && t.is_char_boundary(3)
        && t.is_char_boundary(5)) {
        return None;
    }
    Some(parse_offset(t))
}

/// The width that a text like `24 80` of rows and columns says; 100 where it says none of
/// at least 40.
pub open spec fn width_said(t: Seq<char>) -> int {
    let w = text::words(t);
    if w.len() >= 2 {
        match digits::read_nat(w[1], usize::MAX as nat) {
            Some(n) => if n >= 40 {
                n as int
            } else {
                100
            },
            None => 100,
        }
    } else {
        100
    }
}

/// Terminal width, from what `stty size` printed (falls back to 100 columns).
pub fn term_width(stdout: &[u8]) -> (r: usize)
    ensures
        r == width_said(text::utf8_lossy(stdout@)),
{
    read_width(text::lossy(stdout).as_str())
}

/// The width that a text of rows and columns says (falls back to 100 columns).
pub fn read_width(size: &str) -> (r: usize)
    ensures
        r == width_said(size@),
{
    let w = text::split_whitespace(size);
    assert(text::words(size@).len() == w@.len());
    if w.len() >= 2 {
        assert(text::words(size@)[1] == w@[1]@);
        match digits::read_usize(w[1].as_str()) {
            Some(n) => {
                if n >= 40 {
                    return n;
                }
            },
            None => {},
        }
    }
    100
}

} // verus!

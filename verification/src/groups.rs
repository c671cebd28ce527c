//! The groups that jobs are charged to.

use crate::view::Entry;
use crate::paint;
use crate::pbs;
use crate::text;
use vstd::prelude::*;

verus! {

/// A sorted list of names with `g` in its place, where it is not there yet.
pub open spec fn with_name(names: Seq<Seq<char>>, g: Seq<char>) -> Seq<Seq<char>>
    decreases names.len(),
{
    if names.len() == 0 {
        seq![g]
    } else if names.last() == g {
        names
    } else if text::text_before(names.last(), g) {
        names.push(g)
    } else {
        with_name(names.drop_last(), g).push(names.last())
    }
}

/// The groups that the jobs are charged to, in order, each one once.
pub open spec fn charged(entries: Seq<Entry>) -> Seq<Seq<char>>
    decreases entries.len(),
{
    if entries.len() == 0 {
        Seq::empty()
    } else {
        let rest = charged(entries.drop_last());
        let g = entries.last().job.group@;
        if g.len() == 0 {
            rest
        } else {
            with_name(rest, g)
        }
    }
}

/// Does each name come before those behind it?
pub open spec fn ascending(names: Seq<Seq<char>>) -> bool {
    forall|p: int, q: int|
        0 <= p < q < names.len() ==> text::text_before(#[trigger] names[p], #[trigger] names[q])
}

/// What comes before a text comes before all that the text comes before.
proof fn lemma_before_transitive(a: Seq<char>, b: Seq<char>, c: Seq<char>)
    requires
        text::text_before(a, b),
        text::text_before(b, c),
    ensures
        text::text_before(a, c),
{
    text::lemma_bytes_transitive(
        vstd::utf8::encode_utf8(a),
        vstd::utf8::encode_utf8(b),
        vstd::utf8::encode_utf8(c),
    );
}

/// A name in its place keeps the order, and is the only one that is new.
proof fn lemma_with_name(names: Seq<Seq<char>>, g: Seq<char>)
    requires
        ascending(names),
    ensures
        ascending(with_name(names, g)),
        with_name(names, g).contains(g),
        forall|x: Seq<char>| #[trigger]
            with_name(names, g).contains(x) ==> x == g || names.contains(x),
        forall|x: Seq<char>| #[trigger] names.contains(x) ==> with_name(names, g).contains(x),
    decreases names.len(),
{
    let all = with_name(names, g);
    if names.len() == 0 {
        assert(all[0] == g);
    } else if names.last() == g {
        assert(names[names.len() - 1] == g);
    } else if text::text_before(names.last(), g) {
        assert forall|p: int, q: int| 0 <= p < q < all.len() implies text::text_before(
            #[trigger] all[p],
            #[trigger] all[q],
        ) by {
            if q == names.len() && p < names.len() - 1 {
                lemma_before_transitive(names[p], names.last(), g);
            }
        }
        assert(all[names.len() as int] == g);
        assert forall|x: Seq<char>| #[trigger] names.contains(x) implies all.contains(x) by {
            let k = choose|k: int| 0 <= k < names.len() && names[k] == x;
            assert(all[k] == x);
        }
    } else {
        let before = names.drop_last();
        let part = with_name(before, g);
        let last = names.last();
        lemma_with_name(before, g);
        text::lemma_text_total(last, g);
        assert forall|p: int, q: int| 0 <= p < q < all.len() implies text::text_before(
            #[trigger] all[p],
            #[trigger] all[q],
        ) by {
            if q == part.len() {
                assert(part.contains(all[p]));
                if all[p] != g {
                    let k = choose|k: int| 0 <= k < before.len() && before[k] == all[p];
                    assert(names[k] == all[p]);
                }
            }
        }
        let k = choose|k: int| 0 <= k < part.len() && part[k] == g;
        assert(all[k] == g);
        assert forall|x: Seq<char>| #[trigger] all.contains(x) implies x == g || names.contains(x) by {
            let k = choose|k: int| 0 <= k < all.len() && all[k] == x;
            if k < part.len() {
                assert(part.contains(x));
                if x != g {
                    let m = choose|m: int| 0 <= m < before.len() && before[m] == x;
                    assert(names[m] == x);
                }
            } else {
                assert(names[names.len() - 1] == x);
            }
        }
        assert forall|x: Seq<char>| #[trigger] names.contains(x) implies all.contains(x) by {
            let k = choose|k: int| 0 <= k < names.len() && names[k] == x;
            if k < before.len() {
                assert(before[k] == x);
                assert(before.contains(x));
                let m = choose|m: int| 0 <= m < part.len() && part[m] == x;
                assert(all[m] == x);
            } else {
                assert(all[part.len() as int] == x);
            }
        }
    }
}

/// The charged groups are those of the jobs that have one, in order, each one once.
pub proof fn law_charged(entries: Seq<Entry>)
    ensures
        ascending(charged(entries)),
        forall|i: int|
            0 <= i < entries.len() && (#[trigger] entries[i]).job.group@.len() > 0 ==> charged(
                entries,
            ).contains(entries[i].job.group@),
        forall|g: Seq<char>| #[trigger]
            charged(entries).contains(g) ==> g.len() > 0 && exists|i: int|
                0 <= i < entries.len() && (#[trigger] entries[i]).job.group@ == g,
    decreases entries.len(),
{
    if entries.len() > 0 {
        let before = entries.drop_last();
        let g = entries.last().job.group@;
        law_charged(before);
        if g.len() > 0 {
            lemma_with_name(charged(before), g);
        }
        assert forall|i: int| 0 <= i < entries.len() && (#[trigger] entries[i]).job.group@.len()
            > 0 implies charged(entries).contains(entries[i].job.group@) by {
            if i < before.len() {
                assert(before[i] == entries[i]);
                assert(charged(before).contains(entries[i].job.group@));
            }
        }
        assert forall|x: Seq<char>| #[trigger] charged(entries).contains(x) implies x.len() > 0
            && exists|i: int| 0 <= i < entries.len() && (#[trigger] entries[i]).job.group@ == x by {
            if g.len() > 0 && x == g {
                assert(entries[entries.len() - 1].job.group@ == x);
            } else {
                assert(charged(before).contains(x));
                let i = choose|i: int|
                    0 <= i < before.len() && (#[trigger] before[i]).job.group@ == x;
                assert(entries[i].job.group@ == x);
            }
        }
    }
}

/// Puts `g` in its place, where it is not there yet.
fn put_name(names: &mut Vec<String>, g: &str)
    ensures
        text::texts(final(names)@) == with_name(text::texts(old(names)@), g@),
{
    let ghost all = text::texts(names@);
    let mut i: usize = names.len();
    assert(all.take(i as int) == all);
    assert(with_name(all, g@) + all.skip(i as int) == with_name(all, g@));
    while i > 0 && text::precedes(g, names[i - 1].as_str())
        invariant
            i <= names@.len(),
            all == text::texts(names@),
            names@ == old(names)@,
            with_name(all.take(i as int), g@) + all.skip(i as int) == with_name(all, g@),
        decreases i,
    {
        let ghost part = all.take(i as int);
        assert(part.last() == all[i - 1]);
        proof {
            text::lemma_bytes_irreflexive(vstd::utf8::encode_utf8(g@));
            if text::text_before(part.last(), g@) {
                lemma_before_transitive(g@, part.last(), g@);
            }
        }
        assert(part.drop_last() == all.take(i - 1));
        assert(with_name(all.take(i - 1), g@) + all.skip(i - 1) == with_name(part, g@) + all.skip(
            i as int,
        ));
        i -= 1;
    }
    if i > 0 && text::same(names[i - 1].as_str(), g) {
        assert(all.take(i as int).last() == g@);
        assert(all.take(i as int) + all.skip(i as int) == all);
        return;
    }
    proof {
        let part = all.take(i as int);
        if i > 0 {
            assert(part.last() == all[i - 1]);
            text::lemma_text_total(part.last(), g@);
        }
        assert(with_name(part, g@) == part.push(g@));
        assert(all.insert(i as int, g@) == part.push(g@) + all.skip(i as int));
    }
    names.insert(i, g.to_owned());
    assert(text::texts(names@) == all.insert(i as int, g@));
}

/// The groups that the jobs are charged to, in order, each one once.
pub fn charged_groups(entries: &Vec<Entry>) -> (r: Vec<String>)
    ensures
        text::texts(r@) == charged(entries@),
{
    let mut groups: Vec<String> = Vec::new();
    let mut i: usize = 0;
    assert(text::texts(groups@) == charged(entries@.take(0)));
    while i < entries.len()
        invariant
            i <= entries@.len(),
            text::texts(groups@) == charged(entries@.take(i as int)),
        decreases entries@.len() - i,
    {
        assert(entries@.take(i + 1).drop_last() == entries@.take(i as int));
        if !entries[i].job.group.as_str().is_empty() {
            put_name(&mut groups, entries[i].job.group.as_str());
        }
        i += 1;
    }
    assert(entries@.take(i as int) == entries@);
    groups
}

// ---------------------------------------------------------------------------
// colours
// ---------------------------------------------------------------------------

/// The place of `g` among the names; their number where it is not among them.
pub open spec fn place_of(names: Seq<Seq<char>>, g: Seq<char>) -> int
    decreases names.len(),
{
    if names.len() == 0 || names[0] == g {
        0
    } else {
        1 + place_of(names.skip(1), g)
    }
}

/// The colour of the group `g` wherever it is shown in a listing whose jobs are charged to
/// `groups`.
pub open spec fn group_code(groups: Seq<Seq<char>>, g: Seq<char>) -> Seq<char> {
    paint::hue(place_of(groups, g))
}

/// The colour of the group `g`.
pub fn group_color(groups: &Vec<String>, g: &str) -> (r: &'static str)
    ensures
        r@ == group_code(text::texts(groups@), g@),
{
    let ghost all = text::texts(groups@);
    let mut i: usize = 0;
    assert(all.skip(0) == all);
    while i < groups.len() && !text::same(groups[i].as_str(), g)
        invariant
            i <= groups@.len(),
            all == text::texts(groups@),
            i + place_of(all.skip(i as int), g@) == place_of(all, g@),
        decreases groups@.len() - i,
    {
        assert(all.skip(i as int)[0] == groups@[i as int]@);
        assert(all.skip(i as int).skip(1) == all.skip(i + 1));
        i += 1;
    }
    proof {
        if i < groups@.len() {
            assert(all.skip(i as int)[0] == groups@[i as int]@);
        }
    }
    paint::hue_of(i)
}

// ---------------------------------------------------------------------------
// one group for all
// ---------------------------------------------------------------------------

/// Are all jobs charged to `g`?
pub open spec fn all_charge(entries: Seq<Entry>, g: Seq<char>) -> bool {
    forall|i: int| 0 <= i < entries.len() ==> (#[trigger] entries[i]).job.group@ == g
}

/// The one group that all jobs are charged to, where there is one.
pub open spec fn shared(entries: Seq<Entry>) -> Option<Seq<char>> {
    if entries.len() > 0 && entries[0].job.group@.len() > 0 && all_charge(
        entries,
        entries[0].job.group@,
    ) {
        Some(entries[0].job.group@)
    } else {
        None
    }
}

/// The one group that all jobs are charged to, where there is one.
pub fn shared_group(entries: &Vec<Entry>) -> (r: Option<String>)
    ensures
        pbs::opt_text(r) == shared(entries@),
{
    if entries.len() == 0 || entries[0].job.group.as_str().is_empty() {
        return None;
    }
    let g = &entries[0].job.group;
    let mut i: usize = 0;
    while i < entries.len()
        invariant
            i <= entries@.len(),
            entries@.len() > 0,
            g@ == entries@[0].job.group@,
            forall|k: int| 0 <= k < i ==> (#[trigger] entries@[k]).job.group@ == g@,
        decreases entries@.len() - i,
    {
        if !text::same(entries[i].job.group.as_str(), g.as_str()) {
            assert(entries@[i as int].job.group@ != g@);
            return None;
        }
        i += 1;
    }
    Some(g.clone())
}

/// Where all jobs are charged to one group, it is the only charged group.
pub proof fn law_shared(entries: Seq<Entry>)
    ensures
        shared(entries) matches Some(g) ==> charged(entries) == seq![g],
{
    if let Some(g) = shared(entries) {
        let all = charged(entries);
        law_charged(entries);
        assert(all.contains(entries[0].job.group@));
        assert forall|k: int| 0 <= k < all.len() implies all[k] == g by {
            assert(all.contains(all[k]));
        }
        if all.len() > 1 {
            assert(text::text_before(all[0], all[1]));
            text::lemma_bytes_irreflexive(vstd::utf8::encode_utf8(g));
        }
        assert(all == seq![g]);
    }
}

} // verus!

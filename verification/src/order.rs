//! The order of a listing.

use crate::text;
use vstd::prelude::*;

verus! {

/// What an item is listed by: its rank, then its weight, then its name.
pub struct Key {
    /// Small ranks come first.
    pub rank: u8,
    /// Within a rank, great weights come first.
    pub weight: i64,
    /// Within a weight, names are in the order of their bytes.
    pub name: String,
}

/// What an item is listed by.
pub struct KeyView {
    pub rank: int,
    pub weight: int,
    pub name: Seq<char>,
}

impl View for Key {
    type V = KeyView;

    open spec fn view(&self) -> KeyView {
        KeyView { rank: self.rank as int, weight: self.weight as int, name: self.name@ }
    }
}

/// The views of a list of keys.
pub open spec fn key_views(keys: Seq<Key>) -> Seq<KeyView> {
    keys.map_values(|k: Key| k@)
}

/// Does `a` come ahead of `b`?
pub open spec fn ahead(a: KeyView, b: KeyView) -> bool {
    if a.rank != b.rank {
        a.rank < b.rank
    } else if a.weight != b.weight {
        a.weight > b.weight
    } else {
        text::text_before(a.name, b.name)
    }
}

/// Where `k` goes among the items of `order`: behind all that it does not come ahead of.
pub open spec fn slot(order: Seq<int>, keys: Seq<KeyView>, k: KeyView) -> int
    decreases order.len(),
{
    if order.len() == 0 {
        0
    } else if ahead(k, keys[order.last()]) {
        slot(order.drop_last(), keys, k)
    } else {
        order.len() as int
    }
}

/// The indices of the keys in the order of the listing, each item put behind those before
/// it that it does not come ahead of.
pub open spec fn arranged(keys: Seq<KeyView>) -> Seq<int>
    decreases keys.len(),
{
    if keys.len() == 0 {
        Seq::empty()
    } else {
        let rest = arranged(keys.drop_last());
        rest.insert(slot(rest, keys, keys.last()), keys.len() - 1)
    }
}

/// Is `order` the order of the keys? It holds each index once; what stands later does not
/// come ahead of what stands earlier; and of two items of which neither comes ahead of the
/// other, the earlier one stays earlier.
pub open spec fn in_order(keys: Seq<KeyView>, order: Seq<int>) -> bool {
    &&& order.len() == keys.len()
    &&& forall|p: int| 0 <= p < order.len() ==> 0 <= #[trigger] order[p] < keys.len()
    &&& forall|p: int, q: int|
        0 <= p < q < order.len() ==> #[trigger] order[p] != #[trigger] order[q] && !ahead(
            keys[order[q]],
            keys[order[p]],
        ) && (!ahead(keys[order[p]], keys[order[q]]) ==> order[p] < order[q])
}

/// The indices as numbers.
pub open spec fn ints(v: Seq<usize>) -> Seq<int> {
    v.map_values(|i: usize| i as int)
}

/// Does `a` come ahead of `b`?
fn goes_ahead(a: &Key, b: &Key) -> (r: bool)
    ensures
        r == ahead(a@, b@),
{
    if a.rank != b.rank {
        a.rank < b.rank
    } else if a.weight != b.weight {
        a.weight > b.weight
    } else {
        text::precedes(a.name.as_str(), b.name.as_str())
    }
}

/// Every index is one of a key.
proof fn lemma_arranged_bounds(keys: Seq<KeyView>)
    ensures
        arranged(keys).len() == keys.len(),
        forall|p: int| 0 <= p < keys.len() ==> 0 <= #[trigger] arranged(keys)[p] < keys.len(),
    decreases keys.len(),
{
    if keys.len() > 0 {
        let rest = arranged(keys.drop_last());
        lemma_arranged_bounds(keys.drop_last());
        lemma_slot(rest, keys, keys.last());
    }
}

/// A slot is an index of the order or its length; what stands before it is one that `k`
/// does not come ahead of.
proof fn lemma_slot(order: Seq<int>, keys: Seq<KeyView>, k: KeyView)
    ensures
        0 <= slot(order, keys, k) <= order.len(),
        slot(order, keys, k) > 0 ==> !ahead(k, keys[order[slot(order, keys, k) - 1]]),
        forall|p: int|
            slot(order, keys, k) <= p < order.len() ==> ahead(k, keys[#[trigger] order[p]]),
    decreases order.len(),
{
    if order.len() > 0 && ahead(k, keys[order.last()]) {
        lemma_slot(order.drop_last(), keys, k);
        assert forall|p: int| slot(order, keys, k) <= p < order.len() implies ahead(
            k,
            keys[#[trigger] order[p]],
        ) by {
            if p < order.len() - 1 {
                assert(order[p] == order.drop_last()[p]);
            }
        }
    }
}

/// Only the keys that the order names matter for a slot.
proof fn lemma_slot_keys(order: Seq<int>, a: Seq<KeyView>, b: Seq<KeyView>, k: KeyView)
    requires
        forall|p: int| 0 <= p < order.len() ==> a[#[trigger] order[p]] == b[order[p]],
    ensures
        slot(order, a, k) == slot(order, b, k),
    decreases order.len(),
{
    if order.len() > 0 {
        assert forall|p: int| 0 <= p < order.drop_last().len() implies a[#[trigger] order.drop_last()[p]]
            == b[order.drop_last()[p]] by {
            assert(order.drop_last()[p] == order[p]);
        }
        assert(order.last() == order[order.len() - 1]);
        lemma_slot_keys(order.drop_last(), a, b, k);
    }
}

/// Where the item `k` goes among the items of `order`.
fn find_slot(order: &Vec<usize>, keys: &Vec<Key>, k: &Key) -> (r: usize)
    requires
        forall|p: int| 0 <= p < order@.len() ==> #[trigger] order@[p] < keys@.len(),
    ensures
        r <= order@.len(),
        r == slot(ints(order@), key_views(keys@), k@),
{
    let ghost all = ints(order@);
    let mut i: usize = order.len();
    assert(all.take(i as int) == all);
    while i > 0 && goes_ahead(k, &keys[order[i - 1]])
        invariant
            i <= order@.len(),
            all == ints(order@),
            forall|p: int| 0 <= p < order@.len() ==> #[trigger] order@[p] < keys@.len(),
            slot(all.take(i as int), key_views(keys@), k@) == slot(all, key_views(keys@), k@),
        decreases i,
    {
        assert(all.take(i as int).last() == order@[i - 1]);
        assert(all.take(i as int).drop_last() == all.take(i - 1));
        i -= 1;
    }
    if i > 0 {
        assert(all.take(i as int).last() == order@[i - 1]);
    }
    i
}

/// The indices of the keys in the order of the listing.
pub fn arrange(keys: &Vec<Key>) -> (r: Vec<usize>)
    ensures
        ints(r@) == arranged(key_views(keys@)),
{
    let ghost all = key_views(keys@);
    let mut order: Vec<usize> = Vec::new();
    let mut i: usize = 0;
    assert(ints(order@) == arranged(all.take(0)));
    while i < keys.len()
        invariant
            i <= keys@.len(),
            all == key_views(keys@),
            ints(order@) == arranged(all.take(i as int)),
        decreases keys@.len() - i,
    {
        let ghost part = all.take(i + 1);
        let ghost rest = ints(order@);
        assert(part.drop_last() == all.take(i as int));
        proof {
            lemma_arranged_bounds(all.take(i as int));
            assert forall|p: int| 0 <= p < order@.len() implies #[trigger] order@[p] < keys@.len() by {
                assert(order@[p] == rest[p]);
            }
        }
        let at: usize = find_slot(&order, keys, &keys[i]);
        proof {
            lemma_slot_keys(rest, all, part, keys@[i as int]@);
        }
        order.insert(at, i);
        assert(ints(order@) == rest.insert(at as int, i as int));
        i += 1;
    }
    assert(all.take(i as int) == all);
    order
}

/// What comes ahead of a key comes ahead of all that the key comes ahead of.
pub proof fn law_ahead_transitive(a: KeyView, b: KeyView, c: KeyView)
    requires
        ahead(a, b),
        ahead(b, c),
    ensures
        ahead(a, c),
{
    if a.rank == b.rank && b.rank == c.rank && a.weight == b.weight && b.weight == c.weight {
        text::lemma_bytes_transitive(
            vstd::utf8::encode_utf8(a.name),
            vstd::utf8::encode_utf8(b.name),
            vstd::utf8::encode_utf8(c.name),
        );
    }
}

/// No two keys come ahead of each other, and of two different keys one comes ahead.
pub proof fn law_ahead_total(a: KeyView, b: KeyView)
    ensures
        !(ahead(a, b) && ahead(b, a)),
        a == b || ahead(a, b) || ahead(b, a),
{
    let x = vstd::utf8::encode_utf8(a.name);
    let y = vstd::utf8::encode_utf8(b.name);
    text::lemma_text_total(a.name, b.name);
    if text::bytes_before(x, y) && text::bytes_before(y, x) {
        text::lemma_bytes_transitive(x, y, x);
    }
    text::lemma_bytes_irreflexive(x);
}

/// The listing is in order.
pub proof fn law_arranged(keys: Seq<KeyView>)
    ensures
        in_order(keys, arranged(keys)),
    decreases keys.len(),
{
    if keys.len() > 0 {
        let before = keys.drop_last();
        let rest = arranged(before);
        let k = keys.last();
        let n = keys.len() - 1;
        law_arranged(before);
        lemma_slot(rest, keys, k);
        let at = slot(rest, keys, k);
        let all = arranged(keys);
        assert forall|p: int| 0 <= p < all.len() implies 0 <= #[trigger] all[p] < keys.len() by {
            if p < at {
                assert(all[p] == rest[p]);
            } else if p > at {
                assert(all[p] == rest[p - 1]);
            }
        }
        assert forall|p: int, q: int| 0 <= p < q < all.len() implies #[trigger] all[p]
            != #[trigger] all[q] && !ahead(keys[all[q]], keys[all[p]]) && (!ahead(
            keys[all[p]],
            keys[all[q]],
        ) ==> all[p] < all[q]) by {
            if p < at {
                assert(all[p] == rest[p]);
                assert(keys[all[p]] == before[rest[p]]);
            } else if p > at {
                assert(all[p] == rest[p - 1]);
                assert(keys[all[p]] == before[rest[p - 1]]);
            }
            if q < at {
                assert(all[q] == rest[q]);
                assert(keys[all[q]] == before[rest[q]]);
            } else if q > at {
                assert(all[q] == rest[q - 1]);
                assert(keys[all[q]] == before[rest[q - 1]]);
            }
            if p == at {
                law_ahead_total(k, keys[rest[q - 1]]);
            }
            if q == at {
                // What stands before the slot does not stand behind the new item.
                if ahead(k, keys[rest[p]]) && p < at - 1 {
                    let last = keys[rest[at - 1]];
                    assert(before[rest[at - 1]] == last && before[rest[p]] == keys[rest[p]]);
                    law_ahead_total(keys[rest[p]], last);
                    if ahead(keys[rest[p]], last) {
                        law_ahead_transitive(k, keys[rest[p]], last);
                    }
                }
            }
        }
    }
}

/// There is only one such order.
pub proof fn law_order_unique(keys: Seq<KeyView>, a: Seq<int>, b: Seq<int>)
    requires
        in_order(keys, a),
        in_order(keys, b),
    ensures
        a == b,
{
    lemma_same_prefix(keys, a, b, a.len() as int);
    assert(a.take(a.len() as int) == a && b.take(a.len() as int) == b);
}

/// Two orders agree on their first `n` items.
proof fn lemma_same_prefix(keys: Seq<KeyView>, a: Seq<int>, b: Seq<int>, n: int)
    requires
        in_order(keys, a),
        in_order(keys, b),
        0 <= n <= a.len(),
    ensures
        a.take(n) == b.take(n),
    decreases n,
{
    if n > 0 {
        let m = n - 1;
        lemma_same_prefix(keys, a, b, m);
        if a[m] != b[m] {
            let p = lemma_holds_all(keys, b, a[m]);
            let q = lemma_holds_all(keys, a, b[m]);
            if p < m {
                assert(a.take(m)[p] == b.take(m)[p]);
                assert(a[p] == a[m]);
            }
            if q < m {
                assert(a.take(m)[q] == b.take(m)[q]);
                assert(b[q] == b[m]);
            }
            assert(m < p && m < q);
            assert(b[m] != b[p] && a[m] != a[q]);
            law_ahead_total(keys[a[m]], keys[b[m]]);
        }
        assert(a.take(n) == a.take(m).push(a[m]));
        assert(b.take(n) == b.take(m).push(b[m]));
    }
}

/// An order holds every index.
pub proof fn lemma_holds_all(keys: Seq<KeyView>, order: Seq<int>, i: int) -> (p: int)
    requires
        in_order(keys, order),
        0 <= i < keys.len(),
    ensures
        0 <= p < order.len(),
        order[p] == i,
{
    if forall|p: int| 0 <= p < order.len() ==> order[p] != i {
        // Without `i` there would be more places than indices.
        lemma_pigeon(order, keys.len(), i);
    }
    choose|p: int| 0 <= p < order.len() && order[p] == i
}

/// Different numbers below `n` that leave out `i` are fewer than `n`.
proof fn lemma_pigeon(s: Seq<int>, n: nat, i: int)
    requires
        0 <= i < n,
        forall|p: int| 0 <= p < s.len() ==> 0 <= #[trigger] s[p] < n && s[p] != i,
        forall|p: int, q: int| 0 <= p < q < s.len() ==> #[trigger] s[p] != #[trigger] s[q],
    ensures
        s.len() < n,
{
    let all = Set::new(|x: int| 0 <= x < n);
    vstd::set_lib::lemma_int_range(0, n as int);
    assert(all == vstd::set_lib::set_int_range(0, n as int));
    assert(s.no_duplicates());
    s.unique_seq_to_set();
    vstd::set_lib::lemma_len_subset(s.to_set(), all.remove(i));
}

} // verus!

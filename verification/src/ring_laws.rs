//! Laws of the consistent hash ring, stated over the ring model of
//! `hash_ring` and proved from it.

use vstd::prelude::*;
use crate::hash_ring::{
    added_entry, dedup, distinct_nodes, extends_with, holds_position, is_lower_bound, lemma_dedup_contents,
    lemma_lower_bound, lemma_lower_bound_unique, put_entry, restored,
    lemma_without_node_facts, nodes_of, owner, owner_index, positions_of, replica_order, sorted, walk_from,
    without_node,
};
use crate::virtual_node::RingEntry;

verus! {

/// On a sorted non-empty ring the owner entry of `h` is the first entry at
/// or after `h`, or the first entry of the ring when none is.
proof fn lemma_owner_char(s: Seq<RingEntry>, h: u64)
    requires
        sorted(s),
        s.len() > 0,
    ensures
        0 <= owner_index(s, h) < s.len(),
        forall|j: int| 0 <= j < s.len() && s[j].hash >= h ==>
            s[owner_index(s, h)].hash >= h && s[owner_index(s, h)].hash <= #[trigger] s[j].hash,
        (forall|j: int| 0 <= j < s.len() ==> s[j].hash < h) ==>
            forall|j: int| 0 <= j < s.len() ==> s[owner_index(s, h)].hash <= #[trigger] s[j].hash,
{
    lemma_lower_bound(s, h);
}

/// When a ring `y` holds only entries of a ring `x`, and the owner entry of
/// `h` in `x` is in `y`, it is the owner entry of `h` in `y` as well.
proof fn lemma_owner_agree(x: Seq<RingEntry>, y: Seq<RingEntry>, h: u64, e: RingEntry)
    requires
        sorted(x),
        sorted(y),
        x.len() > 0,
        y.len() > 0,
        forall|f: RingEntry| y.contains(f) ==> x.contains(f),
        e == x[owner_index(x, h)],
        y.contains(e),
    ensures
        y[owner_index(y, h)] == e,
{
    lemma_owner_char(x, h);
    lemma_owner_char(y, h);
    let ox = owner_index(x, h);
    let oy = owner_index(y, h);
    let a = y[oy];
    assert(y.contains(a));
    assert(x.contains(a));
    let ia = choose|i: int| 0 <= i < x.len() && x[i] == a;
    let ie = choose|i: int| 0 <= i < y.len() && y[i] == e;
    if e.hash >= h {
        assert(y[ie].hash >= h);
        assert(a.hash <= e.hash);
        assert(x[ia].hash >= h);
        assert(e.hash <= a.hash);
    } else {
        assert forall|j: int| 0 <= j < x.len() implies x[j].hash < h by {
            if x[j].hash >= h {
                assert(x[ox].hash >= h);
            }
        }
        assert(e.hash <= x[ia].hash);
        assert forall|j: int| 0 <= j < y.len() implies y[j].hash < h by {
            assert(y.contains(y[j]));
            assert(x.contains(y[j]));
            let k = choose|k: int| 0 <= k < x.len() && x[k] == y[j];
            assert(x[k].hash < h);
        }
        assert(a.hash <= y[ie].hash);
    }
    assert(x[ia].hash == x[ox].hash);
    if ia < ox {
        assert(x[ia].hash < x[ox].hash);
    } else if ia > ox {
        assert(x[ox].hash < x[ia].hash);
    }
}

/// Adding a node only moves keys to that node: after `add_node` every
/// position is owned either by its previous owner or by the new node.
pub proof fn law_add_node_moves_keys_only_to_new_node(
    before: Seq<RingEntry>,
    after: Seq<RingEntry>,
    hashes: Seq<u64>,
    node: Seq<char>,
    h: u64,
)
    requires
        sorted(before),
        sorted(after),
        before.len() > 0,
        extends_with(before, after, hashes, node),
    ensures
        owner(after, h) == owner(before, h) || owner(after, h) == node,
{
    let b0 = before[0];
    assert(before.contains(b0));
    assert(after.contains(b0));
    assert(after.len() > 0);
    lemma_owner_char(after, h);
    let a = after[owner_index(after, h)];
    assert(after.contains(a));
    if a.node != node {
        assert(!added_entry(hashes, node, a));
        assert(before.contains(a));
        assert forall|f: RingEntry| before.contains(f) implies after.contains(f) by {}
        lemma_owner_agree(after, before, h, a);
    }
}

/// Removing a node leaves every position it did not own with its owner.
pub proof fn law_remove_node_keeps_other_owners(before: Seq<RingEntry>, node: Seq<char>, h: u64)
    requires
        sorted(before),
        before.len() > 0,
        owner(before, h) != node,
    ensures
        without_node(before, node).len() > 0,
        owner(without_node(before, node), h) == owner(before, h),
{
    lemma_without_node_facts(before, node);
    lemma_owner_char(before, h);
    let after = without_node(before, node);
    let e = before[owner_index(before, h)];
    assert(before.contains(e));
    assert(after.contains(e));
    assert(after.len() > 0);
    lemma_owner_agree(before, after, h, e);
}

/// The replica set of a position lists distinct nodes, starts with the
/// position's owner and holds every physical node of the ring.
pub proof fn law_replica_order(s: Seq<RingEntry>, h: u64)
    requires
        sorted(s),
        s.len() > 0,
    ensures
        replica_order(s, h).no_duplicates(),
        replica_order(s, h)[0] == owner(s, h),
        replica_order(s, h).len() == distinct_nodes(s).len(),
        forall|x: Seq<char>| replica_order(s, h).contains(x) <==> distinct_nodes(s).contains(x),
{
    lemma_owner_char(s, h);
    let o = owner_index(s, h);
    let w = walk_from(s, o);
    let ns = nodes_of(s);
    lemma_dedup_contents(w);
    lemma_dedup_contents(ns);
    assert(w[0] == s[o].node);
    assert forall|x: Seq<char>| w.contains(x) <==> ns.contains(x) by {
        if w.contains(x) {
            let j = choose|j: int| 0 <= j < w.len() && w[j] == x;
            if j < s.len() - o {
                assert(ns[o + j] == x);
            } else {
                assert(ns[j - (s.len() - o)] == x);
            }
        }
        if ns.contains(x) {
            let i = choose|i: int| 0 <= i < ns.len() && ns[i] == x;
            if i >= o {
                assert(w[i - o] == x);
            } else {
                assert(w[i + (s.len() - o)] == x);
            }
        }
    }
    let d1 = dedup(w);
    let d2 = dedup(ns);
    assert forall|x: Seq<char>| d1.contains(x) <==> d2.contains(x) by {
        assert(d1.contains(x) <==> w.contains(x));
        assert(d2.contains(x) <==> ns.contains(x));
    }
    assert(d1.to_set() =~= d2.to_set());
    d1.unique_seq_to_set();
    d2.unique_seq_to_set();
}

/// After removal a node no longer has virtual nodes; the others keep theirs.
pub proof fn law_remove_node_removes_exactly_its_virtual_nodes(before: Seq<RingEntry>, node: Seq<char>)
    requires
        sorted(before),
    ensures
        sorted(without_node(before, node)),
        forall|e: RingEntry| #[trigger] without_node(before, node).contains(e) <==> (before.contains(e) && e.node != node),
{
    lemma_without_node_facts(before, node);
}

/// Restoring a ring from its own virtual nodes, in ring order, gives the
/// same ring back: what serialising the ring keeps is all there is.
pub proof fn law_restore_round_trip(s: Seq<RingEntry>)
    requires
        sorted(s),
    ensures
        restored(s) == s,
    decreases s.len(),
{
    if s.len() > 0 {
        let prev = s.drop_last();
        let e = s.last();
        assert(sorted(prev));
        law_restore_round_trip(prev);
        assert forall|j: int| 0 <= j < prev.len() implies prev[j].hash < e.hash by {
            assert(s[j].hash < s[s.len() - 1].hash);
        }
        assert(!holds_position(prev, e.hash)) by {
            if holds_position(prev, e.hash) {
                let j = choose|j: int| 0 <= j < prev.len() && #[trigger] prev[j].hash == e.hash;
                assert(prev[j].hash < e.hash);
            }
        }
        assert(is_lower_bound(prev, e.hash, prev.len() as int));
        lemma_lower_bound_unique(prev, e.hash, prev.len() as int);
        assert(put_entry(prev, e) =~= s);
    }
}

/// Two rings in strictly increasing order of position with the same
/// entries are the same ring.
proof fn lemma_sorted_same_contents(a: Seq<RingEntry>, b: Seq<RingEntry>)
    requires
        sorted(a),
        sorted(b),
        forall|e: RingEntry| a.contains(e) <==> b.contains(e),
    ensures
        a == b,
    decreases a.len(),
{
    if a.len() == 0 {
        if b.len() > 0 {
            assert(b.contains(b[0]));
        }
        assert(a =~= b);
    } else {
        assert(a.contains(a[0]));
        assert(b.contains(a[0]));
        let j = choose|j: int| 0 <= j < b.len() && b[j] == a[0];
        assert(a.contains(b[0]));
        let i = choose|i: int| 0 <= i < a.len() && a[i] == b[0];
        if i > 0 {
            assert(a[0].hash < a[i].hash);
            if j > 0 {
                assert(b[0].hash < b[j].hash);
            }
        }
        if j > 0 {
            assert(b[0].hash < b[j].hash);
        }
        assert(a[0] == b[0]);
        let a1 = a.drop_first();
        let b1 = b.drop_first();
        assert forall|e: RingEntry| a1.contains(e) <==> b1.contains(e) by {
            if a1.contains(e) {
                let k = choose|k: int| 0 <= k < a1.len() && a1[k] == e;
                assert(a[k + 1] == e);
                assert(a[0].hash < a[k + 1].hash);
                assert(a.contains(e));
                let m = choose|m: int| 0 <= m < b.len() && b[m] == e;
                assert(m != 0);
                assert(b1[m - 1] == e);
            }
            if b1.contains(e) {
                let k = choose|k: int| 0 <= k < b1.len() && b1[k] == e;
                assert(b[k + 1] == e);
                assert(b[0].hash < b[k + 1].hash);
                assert(b.contains(e));
                let m = choose|m: int| 0 <= m < a.len() && a[m] == e;
                assert(m != 0);
                assert(a1[m - 1] == e);
            }
        }
        lemma_sorted_same_contents(a1, b1);
        assert(a.len() == b.len());
        assert forall|k: int| 0 <= k < a.len() implies a[k] == b[k] by {
            if k > 0 {
                assert(a[k] == a1[k - 1]);
                assert(b[k] == b1[k - 1]);
            }
        }
        assert(a =~= b);
    }
}

/// On a sorted ring, the positions of a node come in increasing order and
/// are exactly the positions of its entries.
proof fn lemma_positions_of(s: Seq<RingEntry>, node: Seq<char>)
    requires
        sorted(s),
    ensures
        forall|i: int, j: int| 0 <= i < j < positions_of(s, node).len() ==>
            positions_of(s, node)[i] < positions_of(s, node)[j],
        forall|h: u64| positions_of(s, node).contains(h) <==>
            exists|j: int| 0 <= j < s.len() && s[j].node == node && s[j].hash == h,
    decreases s.len(),
{
    if s.len() > 0 {
        let t = s.drop_last();
        lemma_positions_of(t, node);
        let p = positions_of(t, node);
        assert forall|h: u64| positions_of(s, node).contains(h) <==>
            exists|j: int| 0 <= j < s.len() && s[j].node == node && s[j].hash == h by {
            if positions_of(s, node).contains(h) {
                let k = choose|k: int| 0 <= k < positions_of(s, node).len() && positions_of(s, node)[k] == h;
                if k < p.len() {
                    assert(p[k] == h);
                    assert(p.contains(h));
                    let j = choose|j: int| 0 <= j < t.len() && t[j].node == node && t[j].hash == h;
                    assert(s[j] == t[j]);
                } else {
                    assert(s[s.len() - 1].node == node && s[s.len() - 1].hash == h);
                }
            }
            if exists|j: int| 0 <= j < s.len() && s[j].node == node && s[j].hash == h {
                let j = choose|j: int| 0 <= j < s.len() && s[j].node == node && s[j].hash == h;
                if j < s.len() - 1 {
                    assert(t[j] == s[j]);
                    assert(p.contains(h));
                    let k = choose|k: int| 0 <= k < p.len() && p[k] == h;
                    assert(positions_of(s, node)[k] == h);
                } else {
                    assert(positions_of(s, node)[positions_of(s, node).len() - 1] == h);
                }
            }
        }
        if s.last().node == node {
            assert forall|i: int| 0 <= i < p.len() implies p[i] < s.last().hash by {
                assert(p.contains(p[i]));
                let j = choose|j: int| 0 <= j < t.len() && t[j].node == node && t[j].hash == p[i];
                assert(s[j] == t[j]);
            }
        }
    }
}

/// Adding a node to a ring that holds none of its virtual nodes and then
/// removing it gives the ring back, and what the removal reports are the
/// added positions in increasing order.
pub proof fn law_remove_added_node(before: Seq<RingEntry>, after: Seq<RingEntry>, hashes: Seq<u64>, node: Seq<char>)
    requires
        sorted(before),
        sorted(after),
        forall|j: int| 0 <= j < before.len() ==> before[j].node != node,
        extends_with(before, after, hashes, node),
    ensures
        without_node(after, node) == before,
        forall|i: int, j: int| 0 <= i < j < positions_of(after, node).len() ==>
            positions_of(after, node)[i] < positions_of(after, node)[j],
        forall|h: u64| positions_of(after, node).contains(h) <==> hashes.contains(h),
{
    lemma_positions_of(after, node);
    assert forall|h: u64| positions_of(after, node).contains(h) <==> hashes.contains(h) by {
        if positions_of(after, node).contains(h) {
            let j = choose|j: int| 0 <= j < after.len() && after[j].node == node && after[j].hash == h;
            assert(after.contains(after[j]));
            if before.contains(after[j]) {
                let b = choose|b: int| 0 <= b < before.len() && before[b] == after[j];
                assert(before[b].node != node);
            }
            assert(added_entry(hashes, node, after[j]));
            let k = choose|k: int| 0 <= k < hashes.len()
                && after[j] == (RingEntry { hash: hashes[k], node, index: k as usize });
            assert(hashes[k] == h);
        }
        if hashes.contains(h) {
            let k = choose|k: int| 0 <= k < hashes.len() && hashes[k] == h;
            let e = RingEntry { hash: hashes[k], node, index: k as usize };
            assert(added_entry(hashes, node, e));
            assert(after.contains(e));
            let j = choose|j: int| 0 <= j < after.len() && after[j] == e;
            assert(after[j].node == node && after[j].hash == h);
        }
    }
    lemma_without_node_facts(after, node);
    let w = without_node(after, node);
    assert forall|e: RingEntry| w.contains(e) <==> before.contains(e) by {
        if before.contains(e) {
            let j = choose|j: int| 0 <= j < before.len() && before[j] == e;
            assert(e.node != node);
        }
        if w.contains(e) {
            assert(after.contains(e));
            if added_entry(hashes, node, e) {
                let k = choose|k: int| 0 <= k < hashes.len() && e == (RingEntry { hash: hashes[k], node, index: k as usize });
                assert(e.node == node);
            }
        }
    }
    lemma_sorted_same_contents(w, before);
}

} // verus!

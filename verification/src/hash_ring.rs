//! Consistent hash ring with virtual nodes.
//!
//! The ring is a vector of virtual nodes kept in strictly increasing order of
//! position. A key belongs to the first virtual node at or after the key's
//! position, wrapping around to the first virtual node of the ring.

use vstd::prelude::*;
use crate::hash_fn::{hash_with, hash_function_name_of, spec_hash_function_name, HashFunctionType, sha256_position};
use crate::node::NodeId;
use crate::shard_error::ShardError;
use crate::text::{decimal, u64_to_decimal, concat_str};
use crate::virtual_node::{RingEntry, VirtualNode};

verus! {

// ---------------------------------------------------------------------
// Model of the ring
// ---------------------------------------------------------------------

/// Positions strictly increase along the ring.
pub open spec fn sorted(s: Seq<RingEntry>) -> bool {
    forall|i: int, j: int| 0 <= i < j < s.len() ==> s[i].hash < s[j].hash
}

/// Number of leading entries whose position is below `h`.
pub open spec fn lower_bound(s: Seq<RingEntry>, h: u64) -> nat
    decreases s.len(),
{
    if s.len() == 0 {
        0
    } else if s[0].hash >= h {
        0
    } else {
        1 + lower_bound(s.drop_first(), h)
    }
}

/// `i` is the index of the first entry at or after `h` (or the length when
/// there is none).
pub open spec fn is_lower_bound(s: Seq<RingEntry>, h: u64, i: int) -> bool {
    &&& 0 <= i <= s.len()
    &&& forall|j: int| 0 <= j < i ==> s[j].hash < h
    &&& i < s.len() ==> s[i].hash >= h
}

/// Index of the virtual node owning position `h`: the first at or after
/// `h`, wrapping around to index 0.
pub open spec fn owner_index(s: Seq<RingEntry>, h: u64) -> int {
    if lower_bound(s, h) < s.len() {
        lower_bound(s, h) as int
    } else {
        0
    }
}

/// The physical node owning position `h` on a non-empty ring.
pub open spec fn owner(s: Seq<RingEntry>, h: u64) -> Seq<char> {
    s[owner_index(s, h)].node
}

/// The bytes hashed for a node's `i`-th virtual node: `"<node>:<i>"`.
pub open spec fn virtual_key(node: Seq<char>, i: nat) -> Seq<u8> {
    vstd::utf8::encode_utf8(node + ":"@ + decimal(i))
}

/// Whether `s` holds an entry at position `h`.
pub open spec fn has_position(s: Seq<RingEntry>, h: u64) -> bool {
    exists|j: int| 0 <= j < s.len() && s[j].hash == h
}

/// The entries the virtual nodes at `hashes` of `node` add to a ring.
pub open spec fn added_entry(hashes: Seq<u64>, node: Seq<char>, e: RingEntry) -> bool {
    exists|k: int| 0 <= k < hashes.len() && e == (RingEntry { hash: hashes[k], node, index: k as usize })
}

/// `after` holds exactly the entries of `before` and those added at `hashes` for `node`.
pub open spec fn extends_with(before: Seq<RingEntry>, after: Seq<RingEntry>, hashes: Seq<u64>, node: Seq<char>) -> bool {
    forall|e: RingEntry| after.contains(e) <==> (before.contains(e) || added_entry(hashes, node, e))
}

/// The positions the SHA-256 ring gives the first `n` virtual nodes of
/// `node`.
pub open spec fn sha256_positions(node: Seq<char>, n: nat) -> Seq<u64> {
    Seq::new(n, |k: int| sha256_position(virtual_key(node, k as nat)))
}

/// Position `k` of `hashes` is taken: by the ring, or earlier in `hashes`.
pub open spec fn clash_at(before: Seq<RingEntry>, hashes: Seq<u64>, k: int) -> bool {
    has_position(before, hashes[k]) || exists|j: int| 0 <= j < k && hashes[j] == hashes[k]
}

/// None of the first `k` positions is taken.
pub open spec fn no_clash_before(before: Seq<RingEntry>, hashes: Seq<u64>, k: int) -> bool {
    forall|j: int| 0 <= j < k ==> !#[trigger] clash_at(before, hashes, j)
}

/// What placing the virtual nodes of `node` at `hashes` into the ring
/// `before` gives: `after` with all of them and the positions back, when
/// none is taken; else `VirtualNodeCollision` at the first taken one, with
/// those before it placed.
pub open spec fn placed(before: Seq<RingEntry>, after: Seq<RingEntry>, hashes: Seq<u64>, node: Seq<char>,
    res: Result<Vec<u64>, ShardError>) -> bool {
    match res {
        Ok(h) => {
            &&& h@ == hashes
            &&& no_clash_before(before, hashes, hashes.len() as int)
            &&& extends_with(before, after, hashes, node)
            &&& after.len() == before.len() + hashes.len()
        },
        Err(e) => {
            &&& e is VirtualNodeCollision
            &&& exists|k: int| 0 <= k < hashes.len() && #[trigger] clash_at(before, hashes, k)
                && no_clash_before(before, hashes, k)
                && extends_with(before, after, hashes.take(k), node)
        },
    }
}

/// The entries of `s` that do not belong to `node`, in ring order.
pub open spec fn without_node(s: Seq<RingEntry>, node: Seq<char>) -> Seq<RingEntry>
    decreases s.len(),
{
    if s.len() == 0 {
        s
    } else if s.last().node == node {
        without_node(s.drop_last(), node)
    } else {
        without_node(s.drop_last(), node).push(s.last())
    }
}

/// The positions of the entries of `s` that belong to `node`, in ring order.
pub open spec fn positions_of(s: Seq<RingEntry>, node: Seq<char>) -> Seq<u64>
    decreases s.len(),
{
    if s.len() == 0 {
        Seq::empty()
    } else if s.last().node == node {
        positions_of(s.drop_last(), node).push(s.last().hash)
    } else {
        positions_of(s.drop_last(), node)
    }
}

/// The node of every entry, in ring order.
pub open spec fn nodes_of(s: Seq<RingEntry>) -> Seq<Seq<char>> {
    s.map_values(|e: RingEntry| e.node)
}

/// The views of a sequence of node identifiers.
pub open spec fn node_views(v: Seq<NodeId>) -> Seq<Seq<char>> {
    v.map_values(|n: NodeId| n@)
}

/// The elements of `s` in order of first occurrence, without repeats.
pub open spec fn dedup(s: Seq<Seq<char>>) -> Seq<Seq<char>>
    decreases s.len(),
{
    if s.len() == 0 {
        s
    } else if dedup(s.drop_last()).contains(s.last()) {
        dedup(s.drop_last())
    } else {
        dedup(s.drop_last()).push(s.last())
    }
}

/// The physical nodes met walking the ring from index `o` once around.
pub open spec fn walk_from(s: Seq<RingEntry>, o: int) -> Seq<Seq<char>> {
    Seq::new(s.len(), |j: int| if j < s.len() - o { s[o + j].node } else { s[j - (s.len() - o)].node })
}

/// The replica set of position `h`: distinct physical nodes in ring order
/// starting at the owner of `h`.
pub open spec fn replica_order(s: Seq<RingEntry>, h: u64) -> Seq<Seq<char>> {
    dedup(walk_from(s, owner_index(s, h)))
}

/// The distinct physical nodes of the ring, in order of first appearance.
pub open spec fn distinct_nodes(s: Seq<RingEntry>) -> Seq<Seq<char>> {
    dedup(nodes_of(s))
}

/// Number of virtual nodes of `node` among the entries of `s`.
pub open spec fn vnode_count(s: Seq<RingEntry>, node: Seq<char>) -> nat
    decreases s.len(),
{
    if s.len() == 0 {
        0
    } else if s.last().node == node {
        vnode_count(s.drop_last(), node) + 1
    } else {
        vnode_count(s.drop_last(), node)
    }
}

/// First position of the hash range that ends at position `p`: one past the
/// last entry before `p`, or one past the last entry when the range wraps.
pub open spec fn range_start(s: Seq<RingEntry>, p: u64) -> int {
    if lower_bound(s, p) > 0 {
        s[lower_bound(s, p) - 1].hash + 1
    } else if s.len() > 0 {
        s.last().hash + 1
    } else {
        0
    }
}

/// The hash ranges of the virtual nodes of `node`, in ring order.
pub open spec fn node_ranges(s: Seq<RingEntry>, node: Seq<char>) -> Seq<(u64, u64)> {
    positions_of(s, node).map_values(|p: u64| (range_start(s, p) as u64, p))
}

/// The virtual nodes of `node` deviate from the mean share of the ring by
/// at most `permille` thousandths of that share.
pub open spec fn within_share(s: Seq<RingEntry>, node: Seq<char>, permille: nat) -> bool {
    let total = s.len() as int;
    let n = distinct_nodes(s).len() as int;
    let scaled = vnode_count(s, node) * n;
    let diff = if scaled >= total { scaled - total } else { total - scaled };
    diff * 1000 <= permille * total
}

/// A ring is balanced within `permille` exactly when no physical node's
/// share of virtual nodes lies above or below the mean share by more than
/// `permille` thousandths of it (both measured against the node count
/// times the share: `count * nodes` against `total`).
pub proof fn law_balance_two_sided(s: Seq<RingEntry>, permille: nat)
    ensures
        balanced(s, permille) <==> forall|k: int| 0 <= k < distinct_nodes(s).len() ==> {
            let c = vnode_count(s, #[trigger] distinct_nodes(s)[k]) * distinct_nodes(s).len();
            let t = s.len() as int;
            &&& (c - t) * 1000 <= permille * t
            &&& (t - c) * 1000 <= permille * t
        },
{
    assert forall|k: int| 0 <= k < distinct_nodes(s).len() implies
        (within_share(s, distinct_nodes(s)[k], permille) <==> {
            let c = vnode_count(s, distinct_nodes(s)[k]) * distinct_nodes(s).len();
            let t = s.len() as int;
            &&& (c - t) * 1000 <= permille * t
            &&& (t - c) * 1000 <= permille * t
        }) by {
        let c = vnode_count(s, distinct_nodes(s)[k]) * distinct_nodes(s).len();
        let t = s.len() as int;
        assert(permille * t >= 0) by (nonlinear_arith) requires t >= 0;
    }
}

/// Every physical node of the ring holds its share of virtual nodes within
/// `permille` thousandths.
pub open spec fn balanced(s: Seq<RingEntry>, permille: nat) -> bool {
    forall|k: int| 0 <= k < distinct_nodes(s).len() ==> within_share(s, #[trigger] distinct_nodes(s)[k], permille)
}

// ---------------------------------------------------------------------
// Lemmas about the model
// ---------------------------------------------------------------------

pub proof fn lemma_lower_bound(s: Seq<RingEntry>, h: u64)
    ensures
        is_lower_bound(s, h, lower_bound(s, h) as int),
    decreases s.len(),
{
    if s.len() > 0 && s[0].hash < h {
        lemma_lower_bound(s.drop_first(), h);
        let r = lower_bound(s.drop_first(), h) as int;
        assert forall|j: int| 0 <= j < r + 1 implies s[j].hash < h by {
            if j > 0 {
                assert(s[j] == s.drop_first()[j - 1]);
            }
        }
        if r + 1 < s.len() {
            assert(s[r + 1] == s.drop_first()[r]);
        }
    }
}

pub proof fn lemma_lower_bound_unique(s: Seq<RingEntry>, h: u64, i: int)
    requires
        is_lower_bound(s, h, i),
    ensures
        lower_bound(s, h) == i,
{
    lemma_lower_bound(s, h);
}

/// Whether some virtual node of the ring sits at position `h`.
pub open spec fn holds_position(s: Seq<RingEntry>, h: u64) -> bool {
    exists|j: int| 0 <= j < s.len() && #[trigger] s[j].hash == h
}

/// The ring with `e` put at its position: in place of the virtual node
/// there, or inserted in order.
pub open spec fn put_entry(s: Seq<RingEntry>, e: RingEntry) -> Seq<RingEntry> {
    if holds_position(s, e.hash) {
        s.update(lower_bound(s, e.hash) as int, e)
    } else {
        s.insert(lower_bound(s, e.hash) as int, e)
    }
}

/// The ring built by putting the entries in turn into an empty one.
pub open spec fn restored(entries: Seq<RingEntry>) -> Seq<RingEntry>
    decreases entries.len(),
{
    if entries.len() == 0 {
        Seq::empty()
    } else {
        put_entry(restored(entries.drop_last()), entries.last())
    }
}

// ---------------------------------------------------------------------
// The ring
// ---------------------------------------------------------------------

/// Consistent hash ring for distributed sharding.
#[derive(Debug)]
pub struct ConsistentHashRing {
    ring: Vec<VirtualNode>,
    hash_function: HashFunctionType,
}

impl View for ConsistentHashRing {
    type V = Seq<RingEntry>;

    closed spec fn view(&self) -> Seq<RingEntry> {
        self.ring@.map_values(|v: VirtualNode| v@)
    }
}

impl ConsistentHashRing {
    /// The ring's positions strictly increase.
    pub open spec fn wf(&self) -> bool {
        sorted(self@)
    }

    /// The hash function the ring was created with.
    pub closed spec fn spec_hash_function(&self) -> HashFunctionType {
        self.hash_function
    }

    /// No virtual node sits at the largest position, so every range start
    /// (one past a position) is itself a position.
    pub open spec fn positions_below_max(&self) -> bool {
        forall|j: int| 0 <= j < self@.len() ==> self@[j].hash < u64::MAX
    }

    /// Creates an empty ring using the given hash function.
    pub fn new(hash_function: HashFunctionType) -> (res: ConsistentHashRing)
        ensures
            res.wf(),
            res@ == Seq::<RingEntry>::empty(),
            res.spec_hash_function() == hash_function,
    {
        let res = ConsistentHashRing { ring: Vec::new(), hash_function };
        assert(res@ =~= Seq::<RingEntry>::empty());
        res
    }

    /// A ring of the given hash function holding the virtual nodes, each
    /// put at its position in turn; a later one at a taken position
    /// replaces the earlier.
    pub fn restore(hash_function: HashFunctionType, virtual_nodes: Vec<VirtualNode>) -> (res: ConsistentHashRing)
        ensures
            res.wf(),
            res.spec_hash_function() == hash_function,
            res@ == restored(virtual_nodes@.map_values(|v: VirtualNode| v@)),
    {
        let mut ring = ConsistentHashRing::new(hash_function);
        let ghost entries = virtual_nodes@.map_values(|v: VirtualNode| v@);
        let ghost n = entries.len();
        let mut k: usize = 0;
        while k < virtual_nodes.len()
            invariant
                ring.wf(),
                ring.spec_hash_function() == hash_function,
                n == entries.len(),
                n == virtual_nodes@.len(),
                k <= n,
                entries == virtual_nodes@.map_values(|v: VirtualNode| v@),
                ring@ == restored(entries.take(k as int)),
            decreases n - k,
        {
            let vnode = virtual_nodes[k].clone();
            let ghost e = vnode@;
            proof {
                assert(e == entries[k as int]);
                assert(entries.take(k + 1).drop_last() =~= entries.take(k as int));
                assert(entries.take(k + 1).last() == e);
            }
            ring.put(vnode);
            k = k + 1;
        }
        proof {
            assert(entries.take(n as int) =~= entries);
        }
        ring
    }

    /// Puts the virtual node at its position, replacing one already there.
    fn put(&mut self, vnode: VirtualNode)
        requires
            old(self).wf(),
        ensures
            final(self).wf(),
            final(self).spec_hash_function() == old(self).spec_hash_function(),
            final(self)@ == put_entry(old(self)@, vnode@),
    {
        let h = vnode.hash;
        let pos = self.find_position(h);
        let ghost s0 = self@;
        let ghost e = vnode@;
        if pos < self.ring.len() && self.ring[pos].hash == h {
            self.ring.set(pos, vnode);
            proof {
                assert(self@ =~= s0.update(pos as int, e));
                assert(holds_position(s0, h));
                let j = choose|j: int| 0 <= j < s0.len() && #[trigger] s0[j].hash == h;
                if j != pos as int {
                    if j < pos as int {
                        assert(s0[j].hash < h);
                    } else {
                        assert(s0[pos as int].hash < s0[j].hash);
                    }
                }
                assert forall|a: int, b: int| 0 <= a < b < self@.len() implies self@[a].hash < self@[b].hash by {
                    assert(s0[a].hash < s0[b].hash);
                }
            }
        } else {
            self.ring.insert(pos, vnode);
            proof {
                assert(self@ =~= s0.insert(pos as int, e));
                s0.insert_ensures(pos as int, e);
                lemma_insert_keeps_sorted(s0, pos as int, e);
                if holds_position(s0, h) {
                    let j = choose|j: int| 0 <= j < s0.len() && #[trigger] s0[j].hash == h;
                    if j < pos as int {
                        assert(s0[j].hash < h);
                    } else if j > pos as int {
                        assert(s0[pos as int].hash < s0[j].hash);
                        assert(s0[pos as int].hash >= h);
                    }
                }
            }
        }
    }

    /// Index of the first virtual node at or after position `h`.
    fn find_position(&self, h: u64) -> (res: usize)
        ensures
            is_lower_bound(self@, h, res as int),
            res == lower_bound(self@, h),
    {
        let mut i: usize = 0;
        while i < self.ring.len() && self.ring[i].hash < h
            invariant
                i <= self.ring@.len(),
                forall|j: int| 0 <= j < i ==> self@[j].hash < h,
            decreases self.ring@.len() - i,
        {
            i = i + 1;
        }
        proof {
            lemma_lower_bound_unique(self@, h, i as int);
        }
        i
    }

    /// The text hashed for the `index`-th virtual node of `node_id`.
    fn virtual_key_of(node_id: &NodeId, index: usize) -> (res: String)
        ensures
            res@ == node_id@ + ":"@ + decimal(index as nat),
    {
        let prefix = concat_str(node_id.as_str(), ":");
        let number = u64_to_decimal(index as u64);
        concat_str(prefix.as_str(), number.as_str())
    }

    /// Adds a physical node with `virtual_node_count` virtual nodes, the
    /// `k`-th at the position the ring's hash function gives `"<node>:<k>"`.
    /// Returns their positions in index order. A zero count is refused; a
    /// position already taken stops the insertion with
    /// `VirtualNodeCollision`, keeping the virtual nodes placed before it
    /// (as `place_node` states).
    pub fn add_node(&mut self, node_id: NodeId, virtual_node_count: usize) -> (res: Result<Vec<u64>, ShardError>)
        requires
            old(self).wf(),
        ensures
            final(self).wf(),
            final(self).spec_hash_function() == old(self).spec_hash_function(),
            virtual_node_count == 0 ==> res is Err && res->Err_0 is InvalidConfiguration && final(self)@ == old(self)@,
            virtual_node_count > 0 ==> exists|hashes: Seq<u64>| {
                &&& hashes.len() == virtual_node_count
                &&& old(self).spec_hash_function() == HashFunctionType::Sha256 ==>
                    hashes == sha256_positions(node_id@, virtual_node_count as nat)
                &&& #[trigger] placed(old(self)@, final(self)@, hashes, node_id@, res)
            },
            match res {
                Ok(hashes) => {
                    &&& virtual_node_count > 0
                    &&& hashes@.len() == virtual_node_count
                    &&& extends_with(old(self)@, final(self)@, hashes@, node_id@)
                    &&& final(self)@.len() == old(self)@.len() + virtual_node_count
                    &&& forall|k: int| 0 <= k < hashes@.len() ==> !has_position(old(self)@, #[trigger] hashes@[k])
                    &&& old(self).spec_hash_function() == HashFunctionType::Sha256 ==>
                        forall|k: int| 0 <= k < hashes@.len() ==>
                            #[trigger] hashes@[k] == sha256_position(virtual_key(node_id@, k as nat))
                },
                Err(e) => virtual_node_count == 0 || (
                    e is VirtualNodeCollision
                    && exists|hashes: Seq<u64>| #![trigger hashes.len()]
                        hashes.len() < virtual_node_count
                        && extends_with(old(self)@, final(self)@, hashes, node_id@)
                ),
            },
    {
        if virtual_node_count == 0 {
            return Err(ShardError::InvalidConfiguration {
                reason: "virtual_node_count must be greater than 0".to_owned(),
            });
        }
        let mut hashes: Vec<u64> = Vec::new();
        let mut i: usize = 0;
        while i < virtual_node_count
            invariant
                i <= virtual_node_count,
                hashes@.len() == i,
                self.hash_function == HashFunctionType::Sha256 ==>
                    hashes@ == sha256_positions(node_id@, i as nat),
            decreases virtual_node_count - i,
        {
            let key = Self::virtual_key_of(&node_id, i);
            let hash = hash_with(self.hash_function, key.as_str().as_bytes());
            proof {
                if self.hash_function == HashFunctionType::Sha256 {
                    assert(hashes@.push(hash) =~= sha256_positions(node_id@, (i + 1) as nat));
                }
            }
            hashes.push(hash);
            i = i + 1;
        }
        let res = self.place_node(node_id, &hashes);
        proof {
            match &res {
                Ok(h) => {
                    assert forall|k: int| 0 <= k < h@.len() implies !has_position(old(self)@, #[trigger] h@[k]) by {
                        assert(!clash_at(old(self)@, hashes@, k));
                    }
                },
                Err(e) => {
                    let k = choose|k: int| 0 <= k < hashes@.len() && #[trigger] clash_at(old(self)@, hashes@, k)
                        && no_clash_before(old(self)@, hashes@, k)
                        && extends_with(old(self)@, self@, hashes@.take(k), node_id@);
                    assert(hashes@.take(k).len() < virtual_node_count);
                },
            }
        }
        res
    }

    /// Places the virtual nodes of `node_id` at the given positions, the
    /// `k`-th with index `k`, in index order, as long as each position is
    /// free: neither in the ring nor given earlier. At the first that is
    /// not, it stops with `VirtualNodeCollision`, the nodes placed before
    /// it kept. On success gives the positions back.
    pub fn place_node(&mut self, node_id: NodeId, hashes: &Vec<u64>) -> (res: Result<Vec<u64>, ShardError>)
        requires
            old(self).wf(),
        ensures
            final(self).wf(),
            final(self).spec_hash_function() == old(self).spec_hash_function(),
            placed(old(self)@, final(self)@, hashes@, node_id@, res),
    {
        let ghost before = self@;
        let mut virtual_hashes: Vec<u64> = Vec::new();
        let mut i: usize = 0;
        while i < hashes.len()
            invariant
                self.wf(),
                self.hash_function == old(self).hash_function,
                before == old(self)@,
                i <= hashes@.len(),
                virtual_hashes@ == hashes@.take(i as int),
                self@.len() == before.len() + i,
                extends_with(before, self@, virtual_hashes@, node_id@),
                no_clash_before(before, hashes@, i as int),
            decreases hashes@.len() - i,
        {
            let hash = hashes[i];
            let pos = self.find_position(hash);
            if pos < self.ring.len() && self.ring[pos].hash == hash {
                proof {
                    let x = self@[pos as int];
                    assert(self@.contains(x));
                    if !before.contains(x) {
                        let k = choose|k: int| 0 <= k < virtual_hashes@.len()
                            && x == (RingEntry { hash: virtual_hashes@[k], node: node_id@, index: k as usize });
                        assert(hashes@[k] == hash);
                    } else {
                        let j = choose|j: int| 0 <= j < before.len() && before[j] == x;
                        assert(has_position(before, hash));
                    }
                    assert(clash_at(before, hashes@, i as int));
                }
                return Err(ShardError::VirtualNodeCollision);
            }
            let ghost s0 = self@;
            proof {
                assert(!has_position(s0, hash)) by {
                    if has_position(s0, hash) {
                        let j = choose|j: int| 0 <= j < s0.len() && s0[j].hash == hash;
                        if j < pos {
                        } else if j > pos {
                            assert(s0[pos as int].hash < s0[j].hash);
                        }
                    }
                }
                assert(!clash_at(before, hashes@, i as int)) by {
                    if has_position(before, hash) {
                        let j = choose|j: int| 0 <= j < before.len() && before[j].hash == hash;
                        assert(s0.contains(before[j]));
                    }
                    if exists|j: int| 0 <= j < i && hashes@[j] == hash {
                        let j = choose|j: int| 0 <= j < i && hashes@[j] == hash;
                        let e = RingEntry { hash: virtual_hashes@[j], node: node_id@, index: j as usize };
                        assert(added_entry(virtual_hashes@, node_id@, e));
                        assert(s0.contains(e));
                    }
                }
            }
            let vnode = VirtualNode::new(hash, node_id.clone(), i);
            self.ring.insert(pos, vnode);
            proof {
                let e = RingEntry { hash, node: node_id@, index: i };
                assert(self@ =~= s0.insert(pos as int, e));
                s0.insert_ensures(pos as int, e);
                lemma_insert_keeps_sorted(s0, pos as int, e);
                let hs = virtual_hashes@.push(hash);
                assert forall|x: RingEntry| self@.contains(x) <==> (before.contains(x) || added_entry(hs, node_id@, x)) by {
                    if self@.contains(x) {
                        let j = choose|j: int| 0 <= j < self@.len() && self@[j] == x;
                        if j < pos {
                            assert(s0.contains(x));
                        } else if j > pos {
                            assert(s0[j - 1] == x);
                            assert(s0.contains(x));
                        } else {
                            assert(hs[i as int] == hash);
                        }
                        if s0.contains(x) {
                            if !before.contains(x) {
                                let k = choose|k: int| 0 <= k < virtual_hashes@.len()
                                    && x == (RingEntry { hash: virtual_hashes@[k], node: node_id@, index: k as usize });
                                assert(hs[k] == virtual_hashes@[k]);
                            }
                        }
                    }
                    if before.contains(x) {
                        assert(s0.contains(x));
                        let j = choose|j: int| 0 <= j < s0.len() && s0[j] == x;
                        if j < pos {
                            assert(self@[j] == x);
                        } else {
                            assert(self@[j + 1] == x);
                        }
                    }
                    if added_entry(hs, node_id@, x) {
                        let k = choose|k: int| 0 <= k < hs.len()
                            && x == (RingEntry { hash: hs[k], node: node_id@, index: k as usize });
                        if k < i {
                            assert(added_entry(virtual_hashes@, node_id@, x));
                            assert(s0.contains(x));
                            let j = choose|j: int| 0 <= j < s0.len() && s0[j] == x;
                            if j < pos {
                                assert(self@[j] == x);
                            } else {
                                assert(self@[j + 1] == x);
                            }
                        } else {
                            assert(self@[pos as int] == x);
                        }
                    }
                }
                assert(hs =~= hashes@.take(i + 1));
            }
            virtual_hashes.push(hash);
            i = i + 1;
        }
        proof {
            assert(hashes@.take(hashes@.len() as int) =~= hashes@);
        }
        Ok(virtual_hashes)
    }

    /// Removes a physical node and all its virtual nodes. Returns the
    /// positions removed, in ring order; a node without virtual nodes is
    /// reported as `NodeNotFound`.
    pub fn remove_node(&mut self, node_id: &NodeId) -> (res: Result<Vec<u64>, ShardError>)
        requires
            old(self).wf(),
        ensures
            final(self).wf(),
            final(self).spec_hash_function() == old(self).spec_hash_function(),
            match res {
                Ok(removed) => {
                    &&& removed@ == positions_of(old(self)@, node_id@)
                    &&& removed@.len() > 0
                    &&& final(self)@ == without_node(old(self)@, node_id@)
                },
                Err(e) => {
                    &&& e matches ShardError::NodeNotFound { node_id: n } && n@ == node_id@
                    &&& positions_of(old(self)@, node_id@).len() == 0
                    &&& final(self)@ == old(self)@
                },
            },
    {
        let ghost s = self@;
        let mut kept: Vec<VirtualNode> = Vec::new();
        let mut removed: Vec<u64> = Vec::new();
        let n = self.ring.len();
        let mut i: usize = 0;
        while i < n
            invariant
                n == self.ring@.len(),
                s == self@,
                i <= n,
                kept@.map_values(|v: VirtualNode| v@) == without_node(s.take(i as int), node_id@),
                removed@ == positions_of(s.take(i as int), node_id@),
            decreases n - i,
        {
            proof {
                assert(s.take(i as int + 1).drop_last() =~= s.take(i as int));
            }
            if self.ring[i].node_id.same_as(node_id) {
                removed.push(self.ring[i].hash);
            } else {
                kept.push(self.ring[i].clone());
                proof {
                    assert(kept@.map_values(|v: VirtualNode| v@) =~= without_node(s.take(i as int), node_id@).push(s[i as int]));
                }
            }
            i = i + 1;
        }
        proof {
            assert(s.take(n as int) =~= s);
            lemma_without_node_facts(s, node_id@);
        }
        if removed.len() == 0 {
            proof {
                lemma_without_absent_node(s, node_id@);
            }
            return Err(ShardError::NodeNotFound { node_id: node_id.as_str().to_owned() });
        }
        self.ring = kept;
        Ok(removed)
    }

    /// The physical node owning ring position `key_hash`.
    pub fn get_node_for_hash(&self, key_hash: u64) -> (res: Result<NodeId, ShardError>)
        requires
            self.wf(),
        ensures
            self@.len() == 0 <==> res is Err,
            res is Err ==> res->Err_0 is EmptyHashRing,
            res matches Ok(n) ==> n@ == owner(self@, key_hash),
    {
        if self.ring.len() == 0 {
            return Err(ShardError::EmptyHashRing);
        }
        let pos = self.find_position(key_hash);
        if pos < self.ring.len() {
            Ok(self.ring[pos].node_id.clone())
        } else {
            Ok(self.ring[0].node_id.clone())
        }
    }

    /// The physical node responsible for `key`. With SHA-256 the node is the
    /// owner of the key's position; with AHash the position is drawn from a
    /// per-process keyed hasher and only the node's membership is stated.
    pub fn get_node(&self, key: &str) -> (res: Result<NodeId, ShardError>)
        requires
            self.wf(),
        ensures
            self@.len() == 0 <==> res is Err,
            res is Err ==> res->Err_0 is EmptyHashRing,
            res matches Ok(n) ==> exists|h: u64| n@ == owner(self@, h),
            self.spec_hash_function() == HashFunctionType::Sha256 ==>
                (res matches Ok(n) ==> n@ == owner(self@, sha256_position(vstd::utf8::encode_utf8(key@)))),
    {
        let key_hash = hash_with(self.hash_function, key.as_bytes());
        self.get_node_for_hash(key_hash)
    }
}

impl ConsistentHashRing {
    /// Whether `v` already holds a node with the identifier of `id`.
    fn contains_node(v: &Vec<NodeId>, id: &NodeId) -> (res: bool)
        ensures
            res == node_views(v@).contains(id@),
    {
        let mut i: usize = 0;
        while i < v.len()
            invariant
                i <= v@.len(),
                forall|j: int| 0 <= j < i ==> v@[j]@ != id@,
            decreases v@.len() - i,
        {
            if v[i].same_as(id) {
                proof {
                    assert(node_views(v@)[i as int] == id@);
                }
                return true;
            }
            i = i + 1;
        }
        proof {
            if node_views(v@).contains(id@) {
                let j = choose|j: int| 0 <= j < node_views(v@).len() && node_views(v@)[j] == id@;
                assert(v@[j]@ == id@);
            }
        }
        false
    }

    /// Up to `count` distinct physical nodes for position `key_hash`, in
    /// ring order starting at its owner. Fails when the ring is empty or
    /// has fewer than `count` physical nodes.
    pub fn get_nodes_for_hash(&self, key_hash: u64, count: usize) -> (res: Result<Vec<NodeId>, ShardError>)
        requires
            self.wf(),
        ensures
            self@.len() == 0 ==> res is Err && res->Err_0 is EmptyHashRing,
            self@.len() > 0 ==> match res {
                Ok(nodes) => {
                    &&& count <= replica_order(self@, key_hash).len()
                    &&& node_views(nodes@) == replica_order(self@, key_hash).take(count as int)
                },
                Err(e) => {
                    &&& count > replica_order(self@, key_hash).len()
                    &&& e matches ShardError::InsufficientNodes { required, available }
                    &&& required == count
                    &&& available == replica_order(self@, key_hash).len()
                },
            },
    {
        let n = self.ring.len();
        if n == 0 {
            return Err(ShardError::EmptyHashRing);
        }
        if count == 0 {
            let empty: Vec<NodeId> = Vec::new();
            proof {
                assert(node_views(empty@) =~= replica_order(self@, key_hash).take(0));
            }
            return Ok(empty);
        }
        let lb = self.find_position(key_hash);
        let start: usize = if lb < n { lb } else { 0 };
        let ghost w = walk_from(self@, start as int);
        assert(start as int == owner_index(self@, key_hash));
        let mut result: Vec<NodeId> = Vec::new();
        let mut j: usize = 0;
        while j < n
            invariant
                n == self@.len(),
                n == self.ring@.len(),
                start < n,
                start as int == owner_index(self@, key_hash),
                count > 0,
                w == walk_from(self@, start as int),
                j <= n,
                node_views(result@) == dedup(w.take(j as int)),
                result@.len() < count,
            decreases n - j,
        {
            let idx: usize = if j < n - start { start + j } else { j - (n - start) };
            proof {
                assert(self.ring@[idx as int]@ == self@[idx as int]);
                assert(w[j as int] == self.ring@[idx as int].node_id@);
                assert(w.take(j as int + 1).drop_last() =~= w.take(j as int));
                assert(w.take(j as int + 1).last() == w[j as int]);
            }
            let candidate = &self.ring[idx].node_id;
            if !Self::contains_node(&result, candidate) {
                result.push(candidate.clone());
                proof {
                    assert(node_views(result@) =~= node_views(old_result(result@)).push(w[j as int]));
                }
                if result.len() >= count {
                    proof {
                        lemma_dedup_prefix(w, j as int + 1);
                        assert(replica_order(self@, key_hash) == dedup(w));
                        assert(dedup(w).take(count as int) =~= dedup(w.take(j as int + 1)));
                    }
                    return Ok(result);
                }
            }
            j = j + 1;
        }
        proof {
            assert(w.take(n as int) =~= w);
            assert(replica_order(self@, key_hash) == dedup(w));
        }
        Err(ShardError::InsufficientNodes { required: count, available: result.len() })
    }
}

impl ConsistentHashRing {
    /// Up to `count` distinct physical nodes responsible for `key`, the
    /// first being its owner. The position of the key is exact for SHA-256
    /// rings; for AHash rings it is fixed per process.
    pub fn get_nodes(&self, key: &str, count: usize) -> (res: Result<Vec<NodeId>, ShardError>)
        requires
            self.wf(),
        ensures
            self@.len() == 0 ==> res is Err && res->Err_0 is EmptyHashRing,
            self@.len() > 0 ==> exists|h: u64| #![trigger replica_order(self@, h)] match res {
                Ok(nodes) => {
                    &&& count <= replica_order(self@, h).len()
                    &&& node_views(nodes@) == replica_order(self@, h).take(count as int)
                },
                Err(e) => {
                    &&& count > replica_order(self@, h).len()
                    &&& e matches ShardError::InsufficientNodes { required, available }
                    &&& required == count
                    &&& available == replica_order(self@, h).len()
                },
            },
            self@.len() > 0 && self.spec_hash_function() == HashFunctionType::Sha256 ==> ({
                let h = sha256_position(vstd::utf8::encode_utf8(key@));
                match res {
                    Ok(nodes) => count <= replica_order(self@, h).len()
                        && node_views(nodes@) == replica_order(self@, h).take(count as int),
                    Err(e) => count > replica_order(self@, h).len(),
                }
            }),
    {
        let key_hash = hash_with(self.hash_function, key.as_bytes());
        self.get_nodes_for_hash(key_hash, count)
    }

    /// Each distinct physical node of the ring, in order of first
    /// appearance, with its number of virtual nodes.
    pub fn get_node_distribution(&self) -> (res: Vec<(NodeId, usize)>)
        requires
            self.wf(),
        ensures
            res@.len() == distinct_nodes(self@).len(),
            forall|k: int| 0 <= k < res@.len() ==> {
                &&& (#[trigger] res@[k]).0@ == distinct_nodes(self@)[k]
                &&& res@[k].1 == vnode_count(self@, distinct_nodes(self@)[k])
            },
    {
        let ghost s = self@;
        let n = self.ring.len();
        let mut dist: Vec<(NodeId, usize)> = Vec::new();
        let mut i: usize = 0;
        while i < n
            invariant
                n == self.ring@.len(),
                s == self@,
                i <= n,
                dist@.len() == distinct_nodes(s.take(i as int)).len(),
                forall|k: int| 0 <= k < dist@.len() ==> {
                    &&& (#[trigger] dist@[k]).0@ == distinct_nodes(s.take(i as int))[k]
                    &&& dist@[k].1 == vnode_count(s.take(i as int), distinct_nodes(s.take(i as int))[k])
                    &&& dist@[k].1 <= i
                },
            decreases n - i,
        {
            let ghost p = s.take(i as int);
            let ghost q = s.take(i as int + 1);
            proof {
                assert(q.drop_last() =~= p);
                assert(nodes_of(q).drop_last() =~= nodes_of(p));
                assert(self.ring@[i as int]@ == s[i as int]);
                lemma_dedup_contents(nodes_of(p));
            }
            let mut k: usize = 0;
            while k < dist.len() && !dist[k].0.same_as(&self.ring[i].node_id)
                invariant
                    n == self.ring@.len(),
                    i < n,
                    k <= dist@.len(),
                    forall|m: int| 0 <= m < k ==> dist@[m].0@ != self.ring@[i as int].node_id@,
                decreases dist@.len() - k,
            {
                k = k + 1;
            }
            let found = k < dist.len();
            let ghost d = distinct_nodes(p);
            let ghost x = s[i as int].node;
            proof {
                assert(nodes_of(q).last() == x);
            }
            if found {
                let ghost before = dist@;
                let c = dist[k].1;
                let entry = (dist[k].0.clone(), c + 1);
                dist.set(k, entry);
                proof {
                    assert(d[k as int] == x);
                    assert(d.contains(x));
                    assert(distinct_nodes(q) == d);
                    assert forall|m: int| 0 <= m < dist@.len() implies {
                        &&& (#[trigger] dist@[m]).0@ == distinct_nodes(q)[m]
                        &&& dist@[m].1 == vnode_count(q, distinct_nodes(q)[m])
                        &&& dist@[m].1 <= i + 1
                    } by {
                        assert(vnode_count(q, d[m]) == vnode_count(p, d[m]) + if d[m] == x { 1nat } else { 0nat });
                        if m != k {
                            assert(dist@[m] == before[m]);
                            assert(d.no_duplicates());
                        }
                    }
                }
            } else {
                proof {
                    assert(!d.contains(x)) by {
                        if d.contains(x) {
                            let m = choose|m: int| 0 <= m < d.len() && d[m] == x;
                            assert(dist@[m].0@ == x);
                        }
                    }
                }
                let entry = (self.ring[i].node_id.clone(), 1usize);
                dist.push(entry);
                proof {
                    assert(distinct_nodes(q) == d.push(x));
                    assert forall|m: int| 0 <= m < dist@.len() implies {
                        &&& (#[trigger] dist@[m]).0@ == distinct_nodes(q)[m]
                        &&& dist@[m].1 == vnode_count(q, distinct_nodes(q)[m])
                        &&& dist@[m].1 <= i + 1
                    } by {
                        if m == dist@.len() - 1 {
                            lemma_vnode_count_absent(p, x);
                        } else {
                            assert(d[m] != x);
                        }
                    }
                }
            }
            i = i + 1;
        }
        proof {
            assert(s.take(n as int) =~= s);
        }
        dist
    }

    /// Number of distinct physical nodes on the ring.
    pub fn physical_node_count(&self) -> (res: usize)
        requires
            self.wf(),
        ensures
            res == distinct_nodes(self@).len(),
    {
        self.get_node_distribution().len()
    }

    /// Number of virtual nodes on the ring.
    pub fn virtual_node_count(&self) -> (res: usize)
        ensures
            res == self@.len(),
    {
        self.ring.len()
    }

    /// Whether every physical node holds the mean number of virtual nodes
    /// give or take `threshold_permille` thousandths of that mean. An empty
    /// ring is balanced.
    pub fn is_balanced(&self, threshold_permille: u32) -> (res: bool)
        requires
            self.wf(),
        ensures
            res == balanced(self@, threshold_permille as nat),
            res <==> forall|k: int| 0 <= k < distinct_nodes(self@).len() ==> {
                let c = vnode_count(self@, #[trigger] distinct_nodes(self@)[k]) * distinct_nodes(self@).len();
                let t = self@.len() as int;
                &&& (c - t) * 1000 <= threshold_permille * t
                &&& (t - c) * 1000 <= threshold_permille * t
            },
    {
        proof { law_balance_two_sided(self@, threshold_permille as nat); }
        let dist = self.get_node_distribution();
        let total = self.ring.len() as u128;
        let n = dist.len() as u128;
        let mut k: usize = 0;
        while k < dist.len()
            invariant
                k <= dist@.len(),
                total == self@.len(),
                total <= u64::MAX,
                n == dist@.len(),
                dist@.len() == distinct_nodes(self@).len(),
                forall|m: int| 0 <= m < dist@.len() ==> {
                    &&& (#[trigger] dist@[m]).0@ == distinct_nodes(self@)[m]
                    &&& dist@[m].1 == vnode_count(self@, distinct_nodes(self@)[m])
                },
                forall|m: int| 0 <= m < k ==> within_share(self@, #[trigger] distinct_nodes(self@)[m], threshold_permille as nat),
            decreases dist@.len() - k,
        {
            let count = dist[k].1 as u128;
            proof {
                assert(count * n <= u64::MAX * u64::MAX) by (nonlinear_arith)
                    requires count <= u64::MAX, n <= u64::MAX;
            }
            let scaled = count * n;
            let diff: u128 = if scaled >= total { scaled - total } else { total - scaled };
            proof {
                assert(threshold_permille * total <= u32::MAX * u64::MAX) by (nonlinear_arith)
                    requires threshold_permille <= u32::MAX, total <= u64::MAX;
            }
            let allowed = threshold_permille as u128 * total;
            let ok = match diff.checked_mul(1000) {
                Some(d) => d <= allowed,
                None => false,
            };
            if !ok {
                return false;
            }
            k = k + 1;
        }
        true
    }

    /// Whether the ring holds no virtual node.
    pub fn is_empty(&self) -> (res: bool)
        ensures
            res == (self@.len() == 0),
    {
        self.ring.len() == 0
    }

    /// The virtual nodes of the ring, in ring order.
    pub fn virtual_nodes(&self) -> (res: Vec<&VirtualNode>)
        ensures
            res@.len() == self@.len(),
            forall|k: int| 0 <= k < res@.len() ==> (*#[trigger] res@[k])@ == self@[k],
    {
        let mut out: Vec<&VirtualNode> = Vec::new();
        let mut i: usize = 0;
        while i < self.ring.len()
            invariant
                i <= self.ring@.len(),
                out@.len() == i,
                forall|k: int| 0 <= k < i ==> (*#[trigger] out@[k])@ == self@[k],
            decreases self.ring@.len() - i,
        {
            out.push(&self.ring[i]);
            i = i + 1;
        }
        out
    }

    /// Removes every virtual node.
    pub fn clear(&mut self)
        ensures
            final(self)@ == Seq::<RingEntry>::empty(),
            final(self).wf(),
            final(self).spec_hash_function() == old(self).spec_hash_function(),
    {
        self.ring.clear();
        assert(self@ =~= Seq::<RingEntry>::empty());
    }

    /// The name of the ring's hash function.
    pub fn hash_function_name(&self) -> (res: &'static str)
        ensures
            res@ == spec_hash_function_name(self.spec_hash_function()),
    {
        hash_function_name_of(self.hash_function)
    }

    /// The hash function type the ring was created with.
    pub fn hash_function(&self) -> (res: HashFunctionType)
        ensures
            res == self.spec_hash_function(),
    {
        self.hash_function
    }

    /// For each position a new virtual node would take, the hash range it
    /// would take over: from one past the preceding virtual node (wrapping
    /// to the last one) up to the position itself.
    pub fn get_affected_ranges(&self, new_node_positions: &[u64]) -> (res: Vec<(u64, u64)>)
        requires
            self.wf(),
            self.positions_below_max(),
        ensures
            res@.len() == new_node_positions@.len(),
            forall|k: int| 0 <= k < res@.len() ==>
                #[trigger] res@[k] == (range_start(self@, new_node_positions@[k]) as u64, new_node_positions@[k]),
    {
        let mut ranges: Vec<(u64, u64)> = Vec::new();
        let n = self.ring.len();
        let mut k: usize = 0;
        while k < new_node_positions.len()
            invariant
                self.wf(),
                self.positions_below_max(),
                n == self.ring@.len(),
                k <= new_node_positions@.len(),
                ranges@.len() == k,
                forall|m: int| 0 <= m < k ==>
                    #[trigger] ranges@[m] == (range_start(self@, new_node_positions@[m]) as u64, new_node_positions@[m]),
            decreases new_node_positions@.len() - k,
        {
            let position = new_node_positions[k];
            let lb = self.find_position(position);
            proof {
                if lb > 0 {
                    assert(self.ring@[lb - 1]@ == self@[lb - 1]);
                }
                if n > 0 {
                    assert(self.ring@[n - 1]@ == self@[n - 1]);
                }
            }
            let start: u64 = if lb > 0 {
                self.ring[lb - 1].hash + 1
            } else if n > 0 {
                self.ring[n - 1].hash + 1
            } else {
                0
            };
            ranges.push((start, position));
            k = k + 1;
        }
        ranges
    }

    /// The hash ranges of the virtual nodes of `node_id`, in ring order:
    /// each runs from one past the preceding virtual node (wrapping to the
    /// last one) to the virtual node's position.
    pub fn get_node_ranges(&self, node_id: &NodeId) -> (res: Vec<(u64, u64)>)
        requires
            self.wf(),
            self.positions_below_max(),
        ensures
            res@ == node_ranges(self@, node_id@),
    {
        let ghost s = self@;
        let n = self.ring.len();
        let mut ranges: Vec<(u64, u64)> = Vec::new();
        let mut i: usize = 0;
        while i < n
            invariant
                self.wf(),
                self.positions_below_max(),
                s == self@,
                n == self.ring@.len(),
                i <= n,
                ranges@ == positions_of(s.take(i as int), node_id@).map_values(|p: u64| (range_start(s, p) as u64, p)),
            decreases n - i,
        {
            proof {
                assert(s.take(i as int + 1).drop_last() =~= s.take(i as int));
                assert(self.ring@[i as int]@ == s[i as int]);
            }
            if self.ring[i].node_id.same_as(node_id) {
                let h = self.ring[i].hash;
                proof {
                    assert(is_lower_bound(s, h, i as int));
                    lemma_lower_bound_unique(s, h, i as int);
                    if i > 0 {
                        assert(self.ring@[i - 1]@ == s[i - 1]);
                    }
                    assert(self.ring@[n - 1]@ == s[n - 1]);
                }
                let start: u64 = if i > 0 { self.ring[i - 1].hash + 1 } else { self.ring[n - 1].hash + 1 };
                let ghost before = ranges@;
                ranges.push((start, h));
                proof {
                    let f = |p: u64| (range_start(s, p) as u64, p);
                    assert(positions_of(s.take(i as int + 1), node_id@) == positions_of(s.take(i as int), node_id@).push(h));
                    assert(ranges@ =~= positions_of(s.take(i as int + 1), node_id@).map_values(f));
                }
            }
            i = i + 1;
        }
        proof {
            assert(s.take(n as int) =~= s);
        }
        ranges
    }
}

impl Clone for ConsistentHashRing {
    fn clone(&self) -> (res: Self)
        ensures
            res@ == self@,
            res.spec_hash_function() == self.spec_hash_function(),
    {
        let mut ring: Vec<VirtualNode> = Vec::new();
        let mut i: usize = 0;
        while i < self.ring.len()
            invariant
                i <= self.ring@.len(),
                ring@.len() == i,
                forall|k: int| 0 <= k < i ==> (#[trigger] ring@[k])@ == self.ring@[k]@,
            decreases self.ring@.len() - i,
        {
            ring.push(self.ring[i].clone());
            i = i + 1;
        }
        let res = ConsistentHashRing { ring, hash_function: self.hash_function };
        assert(res@ =~= self@);
        res
    }
}

/// A node absent from a prefix has no virtual node counted there.
proof fn lemma_vnode_count_absent(s: Seq<RingEntry>, node: Seq<char>)
    requires
        !dedup(nodes_of(s)).contains(node),
    ensures
        vnode_count(s, node) == 0,
    decreases s.len(),
{
    if s.len() > 0 {
        let p = s.drop_last();
        assert(nodes_of(s).drop_last() =~= nodes_of(p));
        lemma_dedup_contents(nodes_of(s));
        lemma_dedup_contents(nodes_of(p));
        if s.last().node == node {
            assert(nodes_of(s)[s.len() - 1] == node);
            assert(nodes_of(s).contains(node));
        }
        assert(!nodes_of(p).contains(node)) by {
            if nodes_of(p).contains(node) {
                let j = choose|j: int| 0 <= j < nodes_of(p).len() && nodes_of(p)[j] == node;
                assert(nodes_of(p)[j] == p[j].node);
                assert(p[j] == s[j]);
                assert(nodes_of(s)[j] == node);
                assert(nodes_of(s).contains(node));
            }
        }
        lemma_vnode_count_absent(p, node);
    }
}

/// `s` without its last element (a name for the vector before a push).
spec fn old_result(s: Seq<NodeId>) -> Seq<NodeId> {
    s.drop_last()
}

/// `dedup` of a prefix is a prefix of `dedup`.
pub proof fn lemma_dedup_prefix(s: Seq<Seq<char>>, j: int)
    requires
        0 <= j <= s.len(),
    ensures
        dedup(s.take(j)).len() <= dedup(s).len(),
        dedup(s).take(dedup(s.take(j)).len() as int) == dedup(s.take(j)),
    decreases s.len(),
{
    if j == s.len() {
        assert(s.take(j) =~= s);
    } else {
        let p = s.drop_last();
        assert(p.take(j) =~= s.take(j));
        lemma_dedup_prefix(p, j);
        let d = dedup(s.take(j));
        assert(dedup(s).take(dedup(p).len() as int) =~= dedup(p));
        assert(dedup(s).take(d.len() as int) =~= dedup(p).take(d.len() as int));
    }
}

/// `dedup` keeps exactly the elements of its argument, once each.
pub proof fn lemma_dedup_contents(s: Seq<Seq<char>>)
    ensures
        dedup(s).no_duplicates(),
        forall|x: Seq<char>| dedup(s).contains(x) <==> s.contains(x),
        s.len() > 0 ==> dedup(s).len() > 0 && dedup(s)[0] == s[0],
    decreases s.len(),
{
    if s.len() > 0 {
        let p = s.drop_last();
        lemma_dedup_contents(p);
        assert forall|x: Seq<char>| s.contains(x) <==> (p.contains(x) || x == s.last()) by {
            if s.contains(x) {
                let j = choose|j: int| 0 <= j < s.len() && s[j] == x;
                if j < s.len() - 1 {
                    assert(p[j] == x);
                }
            }
            if p.contains(x) {
                let j = choose|j: int| 0 <= j < p.len() && p[j] == x;
                assert(s[j] == x);
            }
            if x == s.last() {
                assert(s[s.len() - 1] == x);
            }
        }
        let d = dedup(p);
        if !d.contains(s.last()) {
            let t = d.push(s.last());
            assert forall|x: Seq<char>| t.contains(x) <==> (d.contains(x) || x == s.last()) by {
                if t.contains(x) {
                    let j = choose|j: int| 0 <= j < t.len() && t[j] == x;
                    if j < t.len() - 1 {
                        assert(d[j] == x);
                    }
                }
                if d.contains(x) {
                    let j = choose|j: int| 0 <= j < d.len() && d[j] == x;
                    assert(t[j] == x);
                }
                if x == s.last() {
                    assert(t[t.len() - 1] == x);
                }
            }
            assert forall|a: int, b: int| 0 <= a < t.len() && 0 <= b < t.len() && a != b implies t[a] != t[b] by {
                if a == t.len() - 1 {
                    assert(d.contains(t[b]));
                } else if b == t.len() - 1 {
                    assert(d.contains(t[a]));
                }
            }
            if p.len() == 0 {
                assert(d.len() == 0);
            } else {
                assert(t[0] == d[0]);
                assert(s[0] == p[0]);
            }
        } else {
            if p.len() == 0 {
                assert(false);
            } else {
                assert(s[0] == p[0]);
            }
        }
    }
}

/// Removing a node's entries keeps a ring sorted.
pub proof fn lemma_without_node_facts(s: Seq<RingEntry>, node: Seq<char>)
    requires
        sorted(s),
    ensures
        sorted(without_node(s, node)),
        forall|e: RingEntry| without_node(s, node).contains(e) <==> (s.contains(e) && e.node != node),
    decreases s.len(),
{
    if s.len() > 0 {
        let p = s.drop_last();
        lemma_without_node_facts(p, node);
        let w = without_node(p, node);
        assert forall|e: RingEntry| s.contains(e) <==> (p.contains(e) || e == s.last()) by {
            if s.contains(e) {
                let j = choose|j: int| 0 <= j < s.len() && s[j] == e;
                if j < s.len() - 1 {
                    assert(p[j] == e);
                }
            }
            if p.contains(e) {
                let j = choose|j: int| 0 <= j < p.len() && p[j] == e;
                assert(s[j] == e);
            }
            if e == s.last() {
                assert(s[s.len() - 1] == e);
            }
        }
        if s.last().node != node {
            let t = w.push(s.last());
            assert forall|i: int, j: int| 0 <= i < j < t.len() implies t[i].hash < t[j].hash by {
                if j == t.len() - 1 {
                    assert(t[i] == w[i]);
                    assert(w.contains(t[i]));
                    assert(p.contains(t[i]));
                    let k = choose|k: int| 0 <= k < p.len() && p[k] == t[i];
                    assert(s[k] == t[i]);
                }
            }
            assert forall|e: RingEntry| t.contains(e) <==> (w.contains(e) || e == s.last()) by {
                if t.contains(e) {
                    let j = choose|j: int| 0 <= j < t.len() && t[j] == e;
                    if j < t.len() - 1 {
                        assert(w[j] == e);
                    }
                }
                if w.contains(e) {
                    let j = choose|j: int| 0 <= j < w.len() && w[j] == e;
                    assert(t[j] == e);
                }
                if e == s.last() {
                    assert(t[t.len() - 1] == e);
                }
            }
        }
    }
}

/// A node without entries leaves the ring unchanged when removed.
proof fn lemma_without_absent_node(s: Seq<RingEntry>, node: Seq<char>)
    requires
        positions_of(s, node).len() == 0,
    ensures
        without_node(s, node) == s,
    decreases s.len(),
{
    if s.len() > 0 {
        if s.last().node == node {
            assert(positions_of(s, node).len() == positions_of(s.drop_last(), node).len() + 1);
        }
        lemma_without_absent_node(s.drop_last(), node);
        assert(s.drop_last().push(s.last()) =~= s);
    }
}

/// Inserting at the lower bound of a fresh position keeps a ring sorted.
proof fn lemma_insert_keeps_sorted(s: Seq<RingEntry>, pos: int, e: RingEntry)
    requires
        sorted(s),
        is_lower_bound(s, e.hash, pos),
        pos < s.len() ==> s[pos].hash != e.hash,
    ensures
        sorted(s.insert(pos, e)),
{
    s.insert_ensures(pos, e);
    let t = s.insert(pos, e);
    assert forall|i: int, j: int| 0 <= i < j < t.len() implies t[i].hash < t[j].hash by {
        if j < pos {
        } else if j == pos {
        } else if i < pos {
            assert(t[j] == s[j - 1]);
            if pos < s.len() {
                assert(s[pos].hash > e.hash);
            }
        } else if i == pos {
            assert(t[j] == s[j - 1]);
            assert(s[pos].hash >= e.hash);
            if j - 1 > pos {
                assert(s[pos].hash < s[j - 1].hash);
            }
        } else {
            assert(t[j] == s[j - 1]);
            assert(t[i] == s[i - 1]);
        }
    }
}

} // verus!

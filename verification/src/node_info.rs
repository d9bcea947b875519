//! What the cluster knows of a physical node: its address, status,
//! heartbeat times (milliseconds of the caller's clock), metadata and
//! virtual nodes.

use vstd::prelude::*;
use crate::node::{NodeId, NodeStatus};
use crate::peer_addr::PeerAddress;
use crate::shard_error::ShardError;
use crate::text::same_str;
use crate::virtual_node::{RingEntry, VirtualNode};

verus! {

/// Capabilities a node reports, with free-form key/value pairs (each key
/// once).
#[derive(Debug)]
pub struct NodeMetadata {
    pub version: Option<String>,
    pub region: Option<String>,
    pub storage_capacity: Option<u64>,
    pub memory_capacity: Option<usize>,
    pub cpu_cores: Option<usize>,
    pub bandwidth_capacity: Option<u64>,
    pub custom: Vec<(String, String)>,
}

/// The text of an optional string.
pub open spec fn opt_view(o: Option<String>) -> Option<Seq<char>> {
    match o {
        Some(s) => Some(s@),
        None => None,
    }
}

/// The texts of key/value pairs.
pub open spec fn pair_views(s: Seq<(String, String)>) -> Seq<(Seq<char>, Seq<char>)> {
    s.map_values(|p: (String, String)| (p.0@, p.1@))
}

/// What metadata holds.
pub struct MetadataView {
    pub version: Option<Seq<char>>,
    pub region: Option<Seq<char>>,
    pub storage_capacity: Option<u64>,
    pub memory_capacity: Option<usize>,
    pub cpu_cores: Option<usize>,
    pub bandwidth_capacity: Option<u64>,
    pub custom: Seq<(Seq<char>, Seq<char>)>,
}

impl View for NodeMetadata {
    type V = MetadataView;

    open spec fn view(&self) -> MetadataView {
        MetadataView {
            version: opt_view(self.version),
            region: opt_view(self.region),
            storage_capacity: self.storage_capacity,
            memory_capacity: self.memory_capacity,
            cpu_cores: self.cpu_cores,
            bandwidth_capacity: self.bandwidth_capacity,
            custom: pair_views(self.custom@),
        }
    }
}

fn clone_opt(o: &Option<String>) -> (res: Option<String>)
    ensures
        opt_view(res) == opt_view(*o),
{
    match o {
        Some(s) => Some(s.clone()),
        None => None,
    }
}

fn clone_pairs(v: &Vec<(String, String)>) -> (res: Vec<(String, String)>)
    ensures
        pair_views(res@) == pair_views(v@),
{
    let mut out: Vec<(String, String)> = Vec::new();
    let mut i: usize = 0;
    while i < v.len()
        invariant
            i <= v@.len(),
            out@.len() == i,
            pair_views(out@) == pair_views(v@.take(i as int)),
        decreases v@.len() - i,
    {
        let ghost before = out@;
        out.push((v[i].0.clone(), v[i].1.clone()));
        proof {
            let t = v@.take(i + 1);
            assert forall|k: int| 0 <= k < i + 1 implies #[trigger] pair_views(out@)[k] == pair_views(t)[k] by {
                if k < i {
                    assert(out@[k] == before[k]);
                    assert(pair_views(before)[k] == pair_views(v@.take(i as int))[k]);
                }
            }
            assert(pair_views(out@) =~= pair_views(t));
        }
        i = i + 1;
    }
    assert(v@.take(v@.len() as int) =~= v@);
    out
}

impl Clone for NodeMetadata {
    fn clone(&self) -> (res: Self)
        ensures
            res@ == self@,
    {
        NodeMetadata {
            version: clone_opt(&self.version),
            region: clone_opt(&self.region),
            storage_capacity: self.storage_capacity,
            memory_capacity: self.memory_capacity,
            cpu_cores: self.cpu_cores,
            bandwidth_capacity: self.bandwidth_capacity,
            custom: clone_pairs(&self.custom),
        }
    }
}

impl Default for NodeMetadata {
    fn default() -> (res: Self)
        ensures
            res@.version is None,
            res@.region is None,
            res@.storage_capacity is None,
            res@.memory_capacity is None,
            res@.cpu_cores is None,
            res@.bandwidth_capacity is None,
            res@.custom.len() == 0,
    {
        let res = NodeMetadata {
            version: None,
            region: None,
            storage_capacity: None,
            memory_capacity: None,
            cpu_cores: None,
            bandwidth_capacity: None,
            custom: Vec::new(),
        };
        assert(res@.custom =~= Seq::<(Seq<char>, Seq<char>)>::empty());
        res
    }
}

/// `new` is `old` with `key` set to `value`: in place when `key` was
/// there, at the end otherwise.
pub open spec fn pair_set(old: Seq<(Seq<char>, Seq<char>)>, new: Seq<(Seq<char>, Seq<char>)>, key: Seq<char>, value: Seq<char>) -> bool {
    if exists|i: int| 0 <= i < old.len() && #[trigger] old[i].0 == key {
        exists|i: int| 0 <= i < old.len() && #[trigger] old[i].0 == key && new == old.update(i, (key, value))
            && forall|j: int| 0 <= j < i ==> old[j].0 != key
    } else {
        new == old.push((key, value))
    }
}

impl NodeMetadata {
    /// The metadata with the given version.
    pub fn with_version(self, version: &str) -> (res: Self)
        ensures
            res@ == (MetadataView { version: Some(version@), ..self@ }),
    {
        let mut m = self;
        m.version = Some(version.to_string());
        m
    }

    /// The metadata with the given region.
    pub fn with_region(self, region: &str) -> (res: Self)
        ensures
            res@ == (MetadataView { region: Some(region@), ..self@ }),
    {
        let mut m = self;
        m.region = Some(region.to_string());
        m
    }

    /// The metadata with the given storage capacity in bytes.
    pub fn with_storage_capacity(self, capacity: u64) -> (res: Self)
        ensures
            res@ == (MetadataView { storage_capacity: Some(capacity), ..self@ }),
    {
        let mut m = self;
        m.storage_capacity = Some(capacity);
        m
    }

    /// The metadata with the given memory capacity in bytes.
    pub fn with_memory_capacity(self, capacity: usize) -> (res: Self)
        ensures
            res@ == (MetadataView { memory_capacity: Some(capacity), ..self@ }),
    {
        let mut m = self;
        m.memory_capacity = Some(capacity);
        m
    }

    /// The metadata with the given number of CPU cores.
    pub fn with_cpu_cores(self, cores: usize) -> (res: Self)
        ensures
            res@ == (MetadataView { cpu_cores: Some(cores), ..self@ }),
    {
        let mut m = self;
        m.cpu_cores = Some(cores);
        m
    }

    /// The metadata with `key` set to `value`, replacing an earlier value of
    /// the key.
    pub fn with_custom(self, key: &str, value: &str) -> (res: Self)
        ensures
            res@.version == self@.version,
            res@.region == self@.region,
            res@.storage_capacity == self@.storage_capacity,
            res@.memory_capacity == self@.memory_capacity,
            res@.cpu_cores == self@.cpu_cores,
            res@.bandwidth_capacity == self@.bandwidth_capacity,
            pair_set(self@.custom, res@.custom, key@, value@),
    {
        let mut m = self;
        let ghost old_pairs = pair_views(m.custom@);
        let ghost mv = m@;
        let mut i: usize = 0;
        while i < m.custom.len()
            invariant
                m@ == mv,
                mv == self@,
                i <= m.custom@.len(),
                old_pairs == pair_views(m.custom@),
                forall|j: int| 0 <= j < i ==> old_pairs[j].0 != key@,
            decreases m.custom@.len() - i,
        {
            if same_str(m.custom[i].0.as_str(), key) {
                let k = m.custom[i].0.clone();
                m.custom.set(i, (k, value.to_string()));
                proof {
                    assert(old_pairs[i as int].0 == key@);
                    assert(pair_views(m.custom@) =~= old_pairs.update(i as int, (key@, value@)));
                }
                return m;
            }
            i = i + 1;
        }
        m.custom.push((key.to_string(), value.to_string()));
        proof {
            assert(pair_views(m.custom@) =~= old_pairs.push((key@, value@)));
        }
        m
    }
}

/// What the cluster knows of a physical node.
#[derive(Debug)]
pub struct NodeInfo {
    pub id: NodeId,
    pub address: PeerAddress,
    pub status: NodeStatus,
    pub first_seen_ms: u64,
    pub last_heartbeat_ms: u64,
    pub metadata: NodeMetadata,
    pub virtual_nodes: Vec<VirtualNode>,
}

/// The entries of virtual nodes.
pub open spec fn vnode_views(s: Seq<VirtualNode>) -> Seq<RingEntry> {
    s.map_values(|v: VirtualNode| v@)
}

/// Two records of a node hold the same values.
pub open spec fn info_same(a: NodeInfo, b: NodeInfo) -> bool {
    &&& a.id@ == b.id@
    &&& a.address == b.address
    &&& a.status == b.status
    &&& a.first_seen_ms == b.first_seen_ms
    &&& a.last_heartbeat_ms == b.last_heartbeat_ms
    &&& a.metadata@ == b.metadata@
    &&& vnode_views(a.virtual_nodes@) == vnode_views(b.virtual_nodes@)
}

fn clone_vnodes(v: &Vec<VirtualNode>) -> (res: Vec<VirtualNode>)
    ensures
        vnode_views(res@) == vnode_views(v@),
{
    let mut out: Vec<VirtualNode> = Vec::new();
    let mut i: usize = 0;
    while i < v.len()
        invariant
            i <= v@.len(),
            out@.len() == i,
            vnode_views(out@) == vnode_views(v@.take(i as int)),
        decreases v@.len() - i,
    {
        let ghost before = out@;
        out.push(v[i].clone());
        proof {
            let t = v@.take(i + 1);
            assert forall|k: int| 0 <= k < i + 1 implies #[trigger] vnode_views(out@)[k] == vnode_views(t)[k] by {
                if k < i {
                    assert(out@[k] == before[k]);
                    assert(vnode_views(before)[k] == vnode_views(v@.take(i as int))[k]);
                }
            }
            assert(vnode_views(out@) =~= vnode_views(t));
        }
        i = i + 1;
    }
    assert(v@.take(v@.len() as int) =~= v@);
    out
}

impl Clone for NodeInfo {
    fn clone(&self) -> (res: Self)
        ensures
            info_same(res, *self),
    {
        NodeInfo {
            id: self.id.clone(),
            address: self.address,
            status: self.status,
            first_seen_ms: self.first_seen_ms,
            last_heartbeat_ms: self.last_heartbeat_ms,
            metadata: self.metadata.clone(),
            virtual_nodes: clone_vnodes(&self.virtual_nodes),
        }
    }
}

/// Position of the first virtual node at position `hash`, if any.
pub open spec fn vnode_at(s: Seq<RingEntry>, hash: u64) -> Option<int> {
    if exists|i: int| 0 <= i < s.len() && #[trigger] s[i].hash == hash {
        Some(choose|i: int| 0 <= i < s.len() && #[trigger] s[i].hash == hash
            && forall|j: int| 0 <= j < i ==> s[j].hash != hash)
    } else {
        None
    }
}

impl NodeInfo {
    /// A joining node at `address`, first seen and last heard at `now_ms`,
    /// with default metadata and no virtual node.
    pub fn new(id: NodeId, address: PeerAddress, now_ms: u64) -> (res: Self)
        ensures
            res.id@ == id@,
            res.address == address,
            res.status == NodeStatus::Joining,
            res.first_seen_ms == now_ms,
            res.last_heartbeat_ms == now_ms,
            res.metadata@.version is None,
            res.metadata@.region is None,
            res.metadata@.custom.len() == 0,
            res.virtual_nodes@.len() == 0,
    {
        NodeInfo {
            id,
            address,
            status: NodeStatus::Joining,
            first_seen_ms: now_ms,
            last_heartbeat_ms: now_ms,
            metadata: NodeMetadata::default(),
            virtual_nodes: Vec::new(),
        }
    }

    /// Records a heartbeat at `now_ms`; a joining node becomes healthy.
    pub fn update_heartbeat(&mut self, now_ms: u64)
        ensures
            final(self).last_heartbeat_ms == now_ms,
            final(self).status == if old(self).status == NodeStatus::Joining { NodeStatus::Healthy } else { old(self).status },
            final(self).id == old(self).id,
            final(self).address == old(self).address,
            final(self).first_seen_ms == old(self).first_seen_ms,
            final(self).metadata == old(self).metadata,
            final(self).virtual_nodes == old(self).virtual_nodes,
    {
        self.last_heartbeat_ms = now_ms;
        if self.status == NodeStatus::Joining {
            self.status = NodeStatus::Healthy;
        }
    }

    /// Whether the node has been silent longer than `timeout_ms` at
    /// `now_ms`; a clock that went back counts as failed.
    pub open spec fn failed_at(&self, now_ms: u64, timeout_ms: u64) -> bool {
        now_ms < self.last_heartbeat_ms || now_ms - self.last_heartbeat_ms > timeout_ms
    }

    /// Whether the node has been silent longer than `timeout_ms` at
    /// `now_ms`; a clock that went back counts as failed.
    pub fn is_failed(&self, now_ms: u64, timeout_ms: u64) -> (res: bool)
        ensures
            res == self.failed_at(now_ms, timeout_ms),
    {
        if now_ms < self.last_heartbeat_ms {
            true
        } else {
            now_ms - self.last_heartbeat_ms > timeout_ms
        }
    }

    /// Milliseconds since the node was first seen; an error when the clock
    /// went back.
    pub fn uptime(&self, now_ms: u64) -> (res: Result<u64, ShardError>)
        ensures
            now_ms >= self.first_seen_ms ==> res == Ok::<u64, ShardError>((now_ms - self.first_seen_ms) as u64),
            now_ms < self.first_seen_ms ==> (res matches Err(ShardError::InternalError { reason })
                && reason@ == "Failed to calculate uptime: second time provided was later than self"@),
    {
        if now_ms >= self.first_seen_ms {
            Ok(now_ms - self.first_seen_ms)
        } else {
            Err(ShardError::InternalError {
                reason: "Failed to calculate uptime: second time provided was later than self".to_string(),
            })
        }
    }

    /// Milliseconds since the last heartbeat; an error when the clock went
    /// back.
    pub fn time_since_heartbeat(&self, now_ms: u64) -> (res: Result<u64, ShardError>)
        ensures
            now_ms >= self.last_heartbeat_ms ==> res == Ok::<u64, ShardError>((now_ms - self.last_heartbeat_ms) as u64),
            now_ms < self.last_heartbeat_ms ==> (res matches Err(ShardError::InternalError { reason })
                && reason@ == "Failed to calculate time since heartbeat: second time provided was later than self"@),
    {
        if now_ms >= self.last_heartbeat_ms {
            Ok(now_ms - self.last_heartbeat_ms)
        } else {
            Err(ShardError::InternalError {
                reason: "Failed to calculate time since heartbeat: second time provided was later than self".to_string(),
            })
        }
    }

    /// Adds a virtual node at the end.
    pub fn add_virtual_node(&mut self, virtual_node: VirtualNode)
        ensures
            vnode_views(final(self).virtual_nodes@) == vnode_views(old(self).virtual_nodes@).push(virtual_node@),
            final(self).id == old(self).id,
            final(self).address == old(self).address,
            final(self).status == old(self).status,
            final(self).first_seen_ms == old(self).first_seen_ms,
            final(self).last_heartbeat_ms == old(self).last_heartbeat_ms,
            final(self).metadata == old(self).metadata,
    {
        let ghost before = self.virtual_nodes@;
        self.virtual_nodes.push(virtual_node);
        assert(vnode_views(self.virtual_nodes@) =~= vnode_views(before).push(self.virtual_nodes@.last()@));
    }

    /// Removes the first virtual node at position `hash`; whether there was
    /// one.
    pub fn remove_virtual_node(&mut self, hash: u64) -> (res: bool)
        ensures
            res == (vnode_at(vnode_views(old(self).virtual_nodes@), hash) is Some),
            match vnode_at(vnode_views(old(self).virtual_nodes@), hash) {
                Some(i) => vnode_views(final(self).virtual_nodes@) == vnode_views(old(self).virtual_nodes@).remove(i),
                None => vnode_views(final(self).virtual_nodes@) == vnode_views(old(self).virtual_nodes@),
            },
            final(self).id == old(self).id,
            final(self).address == old(self).address,
            final(self).status == old(self).status,
            final(self).first_seen_ms == old(self).first_seen_ms,
            final(self).last_heartbeat_ms == old(self).last_heartbeat_ms,
            final(self).metadata == old(self).metadata,
    {
        let ghost s = vnode_views(self.virtual_nodes@);
        let mut i: usize = 0;
        while i < self.virtual_nodes.len()
            invariant
                i <= self.virtual_nodes@.len(),
                *self == *old(self),
                s == vnode_views(self.virtual_nodes@),
                forall|j: int| 0 <= j < i ==> s[j].hash != hash,
            decreases self.virtual_nodes@.len() - i,
        {
            if self.virtual_nodes[i].hash == hash {
                proof {
                    assert(s[i as int].hash == hash);
                    let c = choose|k: int| 0 <= k < s.len() && #[trigger] s[k].hash == hash
                        && forall|j: int| 0 <= j < k ==> s[j].hash != hash;
                    assert(c == i);
                }
                let ghost before = self.virtual_nodes@;
                self.virtual_nodes.remove(i);
                proof {
                    before.remove_ensures(i as int);
                    assert(vnode_views(self.virtual_nodes@) =~= s.remove(i as int));
                }
                return true;
            }
            i = i + 1;
        }
        false
    }

    /// The positions of the node's virtual nodes, in order.
    pub fn virtual_node_hashes(&self) -> (res: Vec<u64>)
        ensures
            res@ == vnode_views(self.virtual_nodes@).map_values(|e: RingEntry| e.hash),
    {
        let mut out: Vec<u64> = Vec::new();
        let mut i: usize = 0;
        while i < self.virtual_nodes.len()
            invariant
                i <= self.virtual_nodes@.len(),
                out@ == vnode_views(self.virtual_nodes@.take(i as int)).map_values(|e: RingEntry| e.hash),
            decreases self.virtual_nodes@.len() - i,
        {
            out.push(self.virtual_nodes[i].hash);
            assert(out@ =~= vnode_views(self.virtual_nodes@.take(i + 1)).map_values(|e: RingEntry| e.hash));
            i = i + 1;
        }
        assert(self.virtual_nodes@.take(self.virtual_nodes@.len() as int) =~= self.virtual_nodes@);
        out
    }
}

} // verus!

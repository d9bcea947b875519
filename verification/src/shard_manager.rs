//! The shard manager: the members of the cluster, the hash ring that
//! places keys on them, migration bookkeeping when a node leaves, and the
//! counters of what happened. Times are milliseconds of the caller's clock.

use vstd::prelude::*;
use crate::hash_fn::{sha256_position, HashFunctionType};
use crate::hash_ring::{balanced, extends_with, virtual_key, node_ranges, node_views, owner, positions_of, replica_order, without_node, ConsistentHashRing};
use crate::migration::{MigrationStatus, MigrationView, ShardMigrator};
use crate::node::{NodeId, NodeStatus};
use crate::node_info::{info_same, vnode_views, NodeInfo};
use crate::virtual_node::{RingEntry, VirtualNode};
use crate::peer_addr::PeerAddress;
use crate::replication::ReplicationManager;
use crate::shard_config::{shard_config_problem, ShardConfig};
use crate::shard_error::ShardError;
use crate::shard_metrics::{ClusterStats, ShardMetrics};
use crate::clock::millis_duration;

verus! {

/// The name of a status, as `Debug` prints it.
pub open spec fn status_name(s: NodeStatus) -> Seq<char> {
    match s {
        NodeStatus::Healthy => "Healthy"@,
        NodeStatus::Degraded => "Degraded"@,
        NodeStatus::Failed => "Failed"@,
        NodeStatus::Unavailable => "Unavailable"@,
        NodeStatus::Joining => "Joining"@,
        NodeStatus::Leaving => "Leaving"@,
    }
}

/// The name of a status, as `Debug` prints it.
pub fn status_text(s: NodeStatus) -> (res: String)
    ensures
        res@ == status_name(s),
{
    match s {
        NodeStatus::Healthy => "Healthy".to_string(),
        NodeStatus::Degraded => "Degraded".to_string(),
        NodeStatus::Failed => "Failed".to_string(),
        NodeStatus::Unavailable => "Unavailable".to_string(),
        NodeStatus::Joining => "Joining".to_string(),
        NodeStatus::Leaving => "Leaving".to_string(),
    }
}

/// Each node has one record.
pub open spec fn distinct_members(nodes: Seq<NodeInfo>) -> bool {
    forall|i: int, j: int| 0 <= i < j < nodes.len() ==> nodes[i].id@ != nodes[j].id@
}

/// The position of the record of `id`, if there is one.
pub open spec fn member_position(nodes: Seq<NodeInfo>, id: Seq<char>) -> Option<int> {
    if exists|i: int| 0 <= i < nodes.len() && #[trigger] nodes[i].id@ == id {
        Some(choose|i: int| 0 <= i < nodes.len() && #[trigger] nodes[i].id@ == id)
    } else {
        None
    }
}

/// Whether `id` has a record whose status serves requests.
pub open spec fn serves(nodes: Seq<NodeInfo>, id: Seq<char>) -> bool {
    match member_position(nodes, id) {
        Some(p) => nodes[p].status == NodeStatus::Healthy || nodes[p].status == NodeStatus::Degraded,
        None => false,
    }
}

/// The nodes of `ids`, in order, that serve requests.
pub open spec fn serving_only(ids: Seq<Seq<char>>, nodes: Seq<NodeInfo>) -> Seq<Seq<char>>
    decreases ids.len(),
{
    if ids.len() == 0 {
        Seq::empty()
    } else if serves(nodes, ids.last()) {
        serving_only(ids.drop_last(), nodes).push(ids.last())
    } else {
        serving_only(ids.drop_last(), nodes)
    }
}

/// The nodes answering for ring position `h` with `count` replicas: the
/// serving ones among its first `count` replicas, or none when the ring is
/// empty or has fewer distinct nodes than `count`.
pub open spec fn responsible(s: Seq<RingEntry>, nodes: Seq<NodeInfo>, count: usize, h: u64) -> Seq<Seq<char>> {
    if s.len() == 0 || count > replica_order(s, h).len() {
        Seq::empty()
    } else {
        serving_only(replica_order(s, h).take(count as int), nodes)
    }
}

/// What a primary lookup gives when the key's owner is found at ring
/// position `h1` and the backups at `h2`: the owner when it serves; else
/// the first serving backup; else an error naming the owner.
pub open spec fn primary_outcome(s: Seq<RingEntry>, nodes: Seq<NodeInfo>, rf: usize, h1: u64, h2: u64, res: Result<NodeId, ShardError>) -> bool {
    if s.len() == 0 {
        res matches Err(ShardError::EmptyHashRing)
    } else {
        let o = owner(s, h1);
        match member_position(nodes, o) {
            None => res matches Err(ShardError::NodeNotFound { node_id }) && node_id@ == o,
            Some(p) => if serves(nodes, o) {
                res matches Ok(n) && n@ == o
            } else if responsible(s, nodes, rf, h2).len() > 0 {
                res matches Ok(n) && n@ == responsible(s, nodes, rf, h2)[0]
            } else {
                res matches Err(ShardError::NodeUnhealthy { node_id, status })
                    && node_id@ == o && status@ == status_name(nodes[p].status)
            },
        }
    }
}

/// The virtual nodes of `node` at `hashes`, in index order.
pub open spec fn entries_at(hashes: Seq<u64>, node: Seq<char>) -> Seq<RingEntry> {
    Seq::new(hashes.len(), |k: int| RingEntry { hash: hashes[k], node, index: k as usize })
}

/// `new` is `old` with a planned migration away from `node` appended for
/// each of `ranges`, in order.
pub open spec fn planned_after(old: Seq<MigrationView>, new: Seq<MigrationView>, ranges: Seq<(u64, u64)>, node: Seq<char>) -> bool {
    &&& new.len() == old.len() + ranges.len()
    &&& new.take(old.len() as int) == old
    &&& forall|k: int| 0 <= k < ranges.len() ==> {
        let m = #[trigger] new[old.len() + k];
        &&& m.range == ranges[k]
        &&& m.source == node
        &&& m.destination == "destination-node"@
        &&& m.status == MigrationStatus::Planned
    }
}

/// A serving node listed in `ids` is among the serving ones.
proof fn lemma_serving_keeps(ids: Seq<Seq<char>>, nodes: Seq<NodeInfo>, k: int)
    requires
        0 <= k < ids.len(),
        serves(nodes, ids[k]),
    ensures
        serving_only(ids, nodes).contains(ids[k]),
    decreases ids.len(),
{
    let prev = serving_only(ids.drop_last(), nodes);
    if k == ids.len() - 1 {
        assert(serving_only(ids, nodes) == prev.push(ids.last()));
        assert(serving_only(ids, nodes)[prev.len() as int] == ids[k]);
    } else {
        assert(ids.drop_last()[k] == ids[k]);
        lemma_serving_keeps(ids.drop_last(), nodes, k);
        let w = choose|j: int| 0 <= j < prev.len() && prev[j] == ids[k];
        if serves(nodes, ids.last()) {
            assert(serving_only(ids, nodes)[w] == ids[k]);
        } else {
            assert(serving_only(ids, nodes)[w] == ids[k]);
        }
    }
}

/// The primary of a key is one of the nodes responsible for it: with a
/// positive replication factor no larger than the number of nodes on the
/// ring, the node a primary lookup at position `h` returns is among the
/// serving replicas of `h`.
pub proof fn law_primary_is_responsible(ring: ConsistentHashRing, nodes: Seq<NodeInfo>, rf: usize, h: u64, res: Result<NodeId, ShardError>)
    requires
        ring.wf(),
        ring@.len() > 0,
        1 <= rf <= replica_order(ring@, h).len(),
        primary_outcome(ring@, nodes, rf, h, h, res),
        res is Ok,
    ensures
        responsible(ring@, nodes, rf, h).contains(res->Ok_0@),
{
    let s = ring@;
    let o = owner(s, h);
    crate::ring_laws::law_replica_order(s, h);
    let l = replica_order(s, h).take(rf as int);
    if serves(nodes, o) {
        assert(l[0] == o);
        lemma_serving_keeps(l, nodes, 0);
    } else {
        assert(responsible(s, nodes, rf, h)[0] == res->Ok_0@);
    }
}

/// Number of records with the given status.
pub open spec fn with_status(nodes: Seq<NodeInfo>, status: NodeStatus) -> nat
    decreases nodes.len(),
{
    if nodes.len() == 0 {
        0
    } else {
        with_status(nodes.drop_last(), status) + if nodes.last().status == status { 1nat } else { 0nat }
    }
}

/// The members, in order, silent longer than `timeout_ms` at `now_ms` and
/// not yet marked failed.
pub open spec fn newly_failed(nodes: Seq<NodeInfo>, now_ms: u64, timeout_ms: u64) -> Seq<Seq<char>>
    decreases nodes.len(),
{
    if nodes.len() == 0 {
        Seq::empty()
    } else if nodes.last().failed_at(now_ms, timeout_ms) && nodes.last().status != NodeStatus::Failed {
        newly_failed(nodes.drop_last(), now_ms, timeout_ms).push(nodes.last().id@)
    } else {
        newly_failed(nodes.drop_last(), now_ms, timeout_ms)
    }
}

/// Coordinator of the cluster's shards.
pub struct ShardManager {
    config: ShardConfig,
    hash_ring: ConsistentHashRing,
    nodes: Vec<NodeInfo>,
    replication_manager: ReplicationManager,
    migrator: ShardMigrator,
    metrics: ShardMetrics,
    running: bool,
    last_rebalance_ms: u64,
}

impl ShardManager {
    pub closed spec fn spec_config(&self) -> ShardConfig {
        self.config
    }

    pub closed spec fn spec_ring(&self) -> ConsistentHashRing {
        self.hash_ring
    }

    pub closed spec fn spec_nodes(&self) -> Seq<NodeInfo> {
        self.nodes@
    }

    pub closed spec fn spec_migrator(&self) -> ShardMigrator {
        self.migrator
    }

    pub closed spec fn spec_metrics(&self) -> ShardMetrics {
        self.metrics
    }

    pub closed spec fn spec_running(&self) -> bool {
        self.running
    }

    pub closed spec fn spec_last_rebalance(&self) -> u64 {
        self.last_rebalance_ms
    }

    /// The ring is well formed, each node has one record, and the counters
    /// keep their bounds.
    pub open spec fn wf(&self) -> bool {
        &&& self.spec_ring().wf()
        &&& distinct_members(self.spec_nodes())
        &&& self.spec_metrics().wf()
    }

    /// A stopped manager of a valid configuration with no node, an empty
    /// ring using the configured hash function and zeroed counters.
    pub fn new(config: ShardConfig, now_ms: u64) -> (res: Self)
        requires
            shard_config_problem(config) is None,
        ensures
            res.wf(),
            res.spec_config() == config,
            res.spec_ring()@.len() == 0,
            res.spec_ring().spec_hash_function() == config.hash_function,
            res.spec_nodes().len() == 0,
            res.spec_metrics().is_zeroed(),
            res.spec_metrics().spec_interval() == millis_duration(config.metrics_interval_ms),
            res.spec_migrator().active().len() == 0,
            !res.spec_running(),
            res.spec_last_rebalance() == now_ms,
    {
        let interval = config.metrics_interval();
        ShardManager {
            config,
            hash_ring: ConsistentHashRing::new(config.hash_function),
            nodes: Vec::new(),
            replication_manager: ReplicationManager::new(config.replication_factor),
            migrator: ShardMigrator::new(),
            metrics: ShardMetrics::new(interval),
            running: false,
            last_rebalance_ms: now_ms,
        }
    }

    /// Marks the manager running; an error when it already runs.
    pub fn start(&mut self) -> (res: Result<(), ShardError>)
        ensures
            old(self).spec_running() ==> (res matches Err(ShardError::InvalidState { reason })
                && reason@ == "Shard manager is already running"@),
            !old(self).spec_running() ==> res is Ok,
            final(self).spec_running(),
            final(self).spec_config() == old(self).spec_config(),
            final(self).spec_ring() == old(self).spec_ring(),
            final(self).spec_nodes() == old(self).spec_nodes(),
            final(self).spec_migrator() == old(self).spec_migrator(),
            final(self).spec_metrics() == old(self).spec_metrics(),
            final(self).spec_last_rebalance() == old(self).spec_last_rebalance(),
    {
        if self.running {
            return Err(ShardError::InvalidState { reason: "Shard manager is already running".to_string() });
        }
        self.running = true;
        Ok(())
    }

    /// Marks the manager stopped; an error when it does not run.
    pub fn stop(&mut self) -> (res: Result<(), ShardError>)
        ensures
            !old(self).spec_running() ==> (res matches Err(ShardError::InvalidState { reason })
                && reason@ == "Shard manager is not running"@),
            old(self).spec_running() ==> res is Ok,
            !final(self).spec_running(),
            final(self).spec_config() == old(self).spec_config(),
            final(self).spec_ring() == old(self).spec_ring(),
            final(self).spec_nodes() == old(self).spec_nodes(),
            final(self).spec_migrator() == old(self).spec_migrator(),
            final(self).spec_metrics() == old(self).spec_metrics(),
            final(self).spec_last_rebalance() == old(self).spec_last_rebalance(),
    {
        if !self.running {
            return Err(ShardError::InvalidState { reason: "Shard manager is not running".to_string() });
        }
        self.running = false;
        Ok(())
    }

    /// Whether the manager runs.
    pub fn is_running(&self) -> (res: bool)
        ensures
            res == self.spec_running(),
    {
        self.running
    }

    /// Position of the record of `id`.
    fn find_node(&self, id: &NodeId) -> (res: Option<usize>)
        requires
            distinct_members(self.nodes@),
        ensures
            match res {
                Some(i) => member_position(self.nodes@, id@) == Some(i as int) && i < self.nodes@.len(),
                None => member_position(self.nodes@, id@) is None,
            },
    {
        let mut i: usize = 0;
        while i < self.nodes.len()
            invariant
                i <= self.nodes@.len(),
                distinct_members(self.nodes@),
                forall|j: int| 0 <= j < i ==> self.nodes@[j].id@ != id@,
            decreases self.nodes@.len() - i,
        {
            if self.nodes[i].id.same_as(id) {
                proof {
                    assert(self.nodes@[i as int].id@ == id@);
                    let c = member_position(self.nodes@, id@)->Some_0;
                    assert(self.nodes@[c].id@ == id@);
                }
                return Some(i);
            }
            i = i + 1;
        }
        None
    }

    /// A copy of the record of `node_id`, if it has one.
    pub fn get_node(&self, node_id: &NodeId) -> (res: Option<NodeInfo>)
        requires
            self.wf(),
        ensures
            match member_position(self.spec_nodes(), node_id@) {
                Some(p) => res is Some && info_same(res->Some_0, self.spec_nodes()[p]),
                None => res is None,
            },
    {
        match self.find_node(node_id) {
            Some(i) => Some(self.nodes[i].clone()),
            None => None,
        }
    }

    /// Copies of every record, in the order the nodes joined.
    pub fn get_nodes(&self) -> (res: Vec<NodeInfo>)
        ensures
            res@.len() == self.spec_nodes().len(),
            forall|k: int| 0 <= k < res@.len() ==> info_same(#[trigger] res@[k], self.spec_nodes()[k]),
    {
        let mut out: Vec<NodeInfo> = Vec::new();
        let mut i: usize = 0;
        while i < self.nodes.len()
            invariant
                i <= self.nodes@.len(),
                out@.len() == i,
                forall|k: int| 0 <= k < i ==> info_same(#[trigger] out@[k], self.nodes@[k]),
            decreases self.nodes@.len() - i,
        {
            out.push(self.nodes[i].clone());
            i = i + 1;
        }
        out
    }

    /// What a rebalance check did: when the ring is out of balance it was
    /// recorded at `now_ms` and counted; otherwise nothing changed.
    pub open spec fn rebalance_checked(&self, before: &Self, now_ms: u64) -> bool {
        if !balanced(self.spec_ring()@, self.spec_config().rebalance_threshold_permille as nat) {
            &&& self.spec_last_rebalance() == now_ms
            &&& self.spec_metrics().spec_node_ops().rebalances_triggered
                == crate::net_metrics::bump(before.spec_metrics().spec_node_ops().rebalances_triggered, 1)
        } else {
            &&& self.spec_last_rebalance() == before.spec_last_rebalance()
            &&& self.spec_metrics().spec_node_ops().rebalances_triggered
                == before.spec_metrics().spec_node_ops().rebalances_triggered
        }
    }

    /// Checks the balance of the ring, recording a rebalance at `now_ms`
    /// when it is out of balance by more than the configured threshold.
    pub fn trigger_rebalance(&mut self, now_ms: u64) -> (res: Result<(), ShardError>)
        requires
            old(self).wf(),
        ensures
            res is Ok,
            final(self).wf(),
            final(self).rebalance_checked(old(self), now_ms),
            final(self).spec_metrics().spec_node_ops().nodes_added == old(self).spec_metrics().spec_node_ops().nodes_added,
            final(self).spec_metrics().spec_node_ops().nodes_removed == old(self).spec_metrics().spec_node_ops().nodes_removed,
            final(self).spec_metrics().same_but_node_ops(&old(self).spec_metrics()),
            final(self).spec_config() == old(self).spec_config(),
            final(self).spec_ring() == old(self).spec_ring(),
            final(self).spec_nodes() == old(self).spec_nodes(),
            final(self).spec_migrator() == old(self).spec_migrator(),
            final(self).spec_running() == old(self).spec_running(),
    {
        if !self.hash_ring.is_balanced(self.config.rebalance_threshold_permille) {
            self.last_rebalance_ms = now_ms;
            self.metrics.record_rebalance_triggered();
        }
        Ok(())
    }

    /// Sets the status of `node_id`; when the node stops serving and
    /// rebalancing is automatic, checks the balance of the ring.
    pub fn update_node_status(&mut self, node_id: &NodeId, status: NodeStatus, now_ms: u64) -> (res: Result<(), ShardError>)
        requires
            old(self).wf(),
        ensures
            final(self).wf(),
            final(self).spec_config() == old(self).spec_config(),
            final(self).spec_ring() == old(self).spec_ring(),
            final(self).spec_migrator() == old(self).spec_migrator(),
            final(self).spec_running() == old(self).spec_running(),
            match member_position(old(self).spec_nodes(), node_id@) {
                None => {
                    &&& res matches Err(ShardError::NodeNotFound { node_id: n }) && n@ == node_id@
                    &&& final(self).spec_nodes() == old(self).spec_nodes()
                    &&& final(self).spec_metrics() == old(self).spec_metrics()
                    &&& final(self).spec_last_rebalance() == old(self).spec_last_rebalance()
                },
                Some(p) => {
                    let before = old(self).spec_nodes()[p].status;
                    &&& res is Ok
                    &&& final(self).spec_nodes().len() == old(self).spec_nodes().len()
                    &&& final(self).spec_nodes()[p].status == status
                    &&& info_same(final(self).spec_nodes()[p], NodeInfo { status, ..old(self).spec_nodes()[p] })
                    &&& forall|i: int| 0 <= i < old(self).spec_nodes().len() && i != p
                        ==> info_same(#[trigger] final(self).spec_nodes()[i], old(self).spec_nodes()[i])
                    &&& if (before == NodeStatus::Healthy || before == NodeStatus::Degraded)
                        && !(status == NodeStatus::Healthy || status == NodeStatus::Degraded)
                        && old(self).spec_config().auto_rebalance {
                        &&& final(self).rebalance_checked(old(self), now_ms)
                        &&& final(self).spec_metrics().same_but_node_ops(&old(self).spec_metrics())
                    } else {
                        &&& final(self).spec_metrics() == old(self).spec_metrics()
                        &&& final(self).spec_last_rebalance() == old(self).spec_last_rebalance()
                    }
                },
            },
    {
        match self.find_node(node_id) {
            None => Err(ShardError::NodeNotFound { node_id: node_id.as_str().to_string() }),
            Some(p) => {
                let old_status = self.nodes[p].status;
                let mut rec = self.nodes[p].clone();
                rec.status = status;
                self.nodes.set(p, rec);
                if old_status.is_available() && !status.is_available() && self.config.auto_rebalance {
                    let _ = self.trigger_rebalance(now_ms);
                }
                Ok(())
            },
        }
    }

    /// Records a heartbeat of `node_id` at `now_ms`; a joining node becomes
    /// healthy.
    pub fn process_heartbeat(&mut self, node_id: &NodeId, now_ms: u64) -> (res: Result<(), ShardError>)
        requires
            old(self).wf(),
        ensures
            final(self).wf(),
            final(self).spec_config() == old(self).spec_config(),
            final(self).spec_ring() == old(self).spec_ring(),
            final(self).spec_migrator() == old(self).spec_migrator(),
            final(self).spec_metrics() == old(self).spec_metrics(),
            final(self).spec_running() == old(self).spec_running(),
            final(self).spec_last_rebalance() == old(self).spec_last_rebalance(),
            match member_position(old(self).spec_nodes(), node_id@) {
                None => {
                    &&& res matches Err(ShardError::NodeNotFound { node_id: n }) && n@ == node_id@
                    &&& final(self).spec_nodes() == old(self).spec_nodes()
                },
                Some(p) => {
                    let before = old(self).spec_nodes()[p];
                    &&& res is Ok
                    &&& final(self).spec_nodes().len() == old(self).spec_nodes().len()
                    &&& info_same(final(self).spec_nodes()[p], NodeInfo {
                            last_heartbeat_ms: now_ms,
                            status: if before.status == NodeStatus::Joining { NodeStatus::Healthy } else { before.status },
                            ..before
                        })
                    &&& forall|i: int| 0 <= i < old(self).spec_nodes().len() && i != p
                        ==> info_same(#[trigger] final(self).spec_nodes()[i], old(self).spec_nodes()[i])
                },
            },
    {
        match self.find_node(node_id) {
            None => Err(ShardError::NodeNotFound { node_id: node_id.as_str().to_string() }),
            Some(p) => {
                let mut rec = self.nodes[p].clone();
                rec.update_heartbeat(now_ms);
                self.nodes.set(p, rec);
                Ok(())
            },
        }
    }

    /// Counts of the members by status, of the ring's virtual nodes, and
    /// whether the ring is balanced.
    pub fn get_cluster_stats(&self) -> (res: ClusterStats)
        requires
            self.wf(),
        ensures
            res == (ClusterStats {
                total_nodes: self.spec_nodes().len() as usize,
                healthy_nodes: with_status(self.spec_nodes(), NodeStatus::Healthy) as usize,
                degraded_nodes: with_status(self.spec_nodes(), NodeStatus::Degraded) as usize,
                failed_nodes: with_status(self.spec_nodes(), NodeStatus::Failed) as usize,
                virtual_nodes: self.spec_ring()@.len() as usize,
                replication_factor: self.spec_config().replication_factor,
                is_balanced: balanced(self.spec_ring()@, self.spec_config().rebalance_threshold_permille as nat),
            }),
    {
        let mut healthy: usize = 0;
        let mut degraded: usize = 0;
        let mut failed: usize = 0;
        let mut i: usize = 0;
        while i < self.nodes.len()
            invariant
                i <= self.nodes@.len(),
                healthy == with_status(self.nodes@.take(i as int), NodeStatus::Healthy),
                degraded == with_status(self.nodes@.take(i as int), NodeStatus::Degraded),
                failed == with_status(self.nodes@.take(i as int), NodeStatus::Failed),
                healthy <= i && degraded <= i && failed <= i,
            decreases self.nodes@.len() - i,
        {
            assert(self.nodes@.take(i + 1).drop_last() =~= self.nodes@.take(i as int));
            match self.nodes[i].status {
                NodeStatus::Healthy => { healthy = healthy + 1; },
                NodeStatus::Degraded => { degraded = degraded + 1; },
                NodeStatus::Failed => { failed = failed + 1; },
                _ => {},
            }
            i = i + 1;
        }
        assert(self.nodes@.take(self.nodes@.len() as int) =~= self.nodes@);
        ClusterStats {
            total_nodes: self.nodes.len(),
            healthy_nodes: healthy,
            degraded_nodes: degraded,
            failed_nodes: failed,
            virtual_nodes: self.hash_ring.virtual_node_count(),
            replication_factor: self.config.replication_factor,
            is_balanced: self.hash_ring.is_balanced(self.config.rebalance_threshold_permille),
        }
    }

    /// The members silent longer than the failure detection timeout at
    /// `now_ms` and not yet marked failed, in order: those the failure
    /// detector marks failed.
    pub fn detect_failed_nodes(&self, now_ms: u64) -> (res: Vec<NodeId>)
        ensures
            node_views(res@) == newly_failed(self.spec_nodes(), now_ms, self.spec_config().failure_detection_timeout_ms),
    {
        let timeout = self.config.failure_detection_timeout_ms;
        let mut out: Vec<NodeId> = Vec::new();
        let mut i: usize = 0;
        while i < self.nodes.len()
            invariant
                i <= self.nodes@.len(),
                timeout == self.config.failure_detection_timeout_ms,
                node_views(out@) == newly_failed(self.nodes@.take(i as int), now_ms, timeout),
            decreases self.nodes@.len() - i,
        {
            assert(self.nodes@.take(i + 1).drop_last() =~= self.nodes@.take(i as int));
            if self.nodes[i].is_failed(now_ms, timeout) && self.nodes[i].status != NodeStatus::Failed {
                let ghost before = out@;
                out.push(self.nodes[i].id.clone());
                assert(node_views(out@) =~= node_views(before).push(self.nodes@[i as int].id@));
            }
            i = i + 1;
        }
        assert(self.nodes@.take(self.nodes@.len() as int) =~= self.nodes@);
        out
    }

    /// The ids of `ids`, in order, whose nodes serve requests.
    fn serving(&self, ids: Vec<NodeId>) -> (res: Vec<NodeId>)
        requires
            distinct_members(self.nodes@),
        ensures
            node_views(res@) == serving_only(node_views(ids@), self.nodes@),
    {
        let mut out: Vec<NodeId> = Vec::new();
        let mut i: usize = 0;
        while i < ids.len()
            invariant
                i <= ids@.len(),
                distinct_members(self.nodes@),
                node_views(out@) == serving_only(node_views(ids@.take(i as int)), self.nodes@),
            decreases ids@.len() - i,
        {
            assert(node_views(ids@.take(i + 1)).drop_last() =~= node_views(ids@.take(i as int)));
            assert(node_views(ids@.take(i + 1)).last() == ids@[i as int]@);
            match self.find_node(&ids[i]) {
                Some(p) => {
                    if self.nodes[p].status.is_available() {
                        let ghost before = out@;
                        out.push(ids[i].clone());
                        assert(node_views(out@) =~= node_views(before).push(ids@[i as int]@));
                    }
                },
                None => {},
            }
            i = i + 1;
        }
        assert(ids@.take(ids@.len() as int) =~= ids@);
        out
    }

    /// The serving nodes among the replicas of `key`; none when the ring is
    /// empty or has fewer nodes than the replication factor. The key's
    /// position is exact on SHA-256 rings.
    pub fn get_responsible_nodes(&self, key: &str) -> (res: Vec<NodeId>)
        requires
            self.wf(),
        ensures
            exists|h: u64| #![trigger replica_order(self.spec_ring()@, h)]
                node_views(res@) == responsible(self.spec_ring()@, self.spec_nodes(), self.spec_config().replication_factor, h),
            self.spec_ring().spec_hash_function() == HashFunctionType::Sha256 ==>
                node_views(res@) == responsible(self.spec_ring()@, self.spec_nodes(), self.spec_config().replication_factor,
                    sha256_position(vstd::utf8::encode_utf8(key@))),
    {
        match self.hash_ring.get_nodes(key, self.config.replication_factor) {
            Ok(ids) => self.serving(ids),
            Err(_) => {
                let res: Vec<NodeId> = Vec::new();
                assert(node_views(res@) =~= Seq::<Seq<char>>::empty());
                res
            },
        }
    }

    /// The node a key goes to: its owner on the ring when that node serves,
    /// else the first serving replica; an error when the ring is empty, the
    /// owner has no record, or no replica serves. The key's position is
    /// exact on SHA-256 rings.
    pub fn get_primary_node(&self, key: &str) -> (res: Result<NodeId, ShardError>)
        requires
            self.wf(),
        ensures
            exists|h1: u64, h2: u64| #![trigger owner(self.spec_ring()@, h1), replica_order(self.spec_ring()@, h2)]
                primary_outcome(self.spec_ring()@, self.spec_nodes(), self.spec_config().replication_factor, h1, h2, res),
            self.spec_ring().spec_hash_function() == HashFunctionType::Sha256 ==> ({
                let h = sha256_position(vstd::utf8::encode_utf8(key@));
                primary_outcome(self.spec_ring()@, self.spec_nodes(), self.spec_config().replication_factor, h, h, res)
            }),
    {
        let ghost ring = self.spec_ring()@;
        let ghost rf = self.spec_config().replication_factor;
        let ghost hk = sha256_position(vstd::utf8::encode_utf8(key@));
        let primary = match self.hash_ring.get_node(key) {
            Ok(n) => n,
            Err(e) => {
                let res: Result<NodeId, ShardError> = Err(e);
                assert(primary_outcome(ring, self.spec_nodes(), rf, 0, 0, res));
                assert(owner(ring, 0) == owner(ring, 0) && replica_order(ring, 0) == replica_order(ring, 0));
                return res;
            },
        };
        let ghost h1 = choose|h: u64| primary@ == owner(ring, h);
        assert(primary@ == owner(ring, h1));
        let res = match self.find_node(&primary) {
            None => Err(ShardError::NodeNotFound { node_id: primary.as_str().to_string() }),
            Some(p) => {
                if self.nodes[p].status.is_available() {
                    Ok(primary)
                } else {
                    let status = status_text(self.nodes[p].status);
                    let backups = self.get_responsible_nodes(key);
                    let ghost h2 = choose|h: u64| #![trigger replica_order(ring, h)]
                        node_views(backups@) == responsible(ring, self.spec_nodes(), rf, h);
                    let r = if backups.len() > 0 {
                        Ok(backups[0].clone())
                    } else {
                        Err(ShardError::NodeUnhealthy { node_id: primary.as_str().to_string(), status })
                    };
                    proof {
                        assert(node_views(backups@).len() == backups@.len());
                        if backups@.len() > 0 {
                            assert(node_views(backups@)[0] == backups@[0]@);
                        }
                        assert(primary_outcome(ring, self.spec_nodes(), rf, h1, h2, r));
                        assert(owner(ring, h1) == owner(ring, h1) && replica_order(ring, h2) == replica_order(ring, h2));
                        if self.spec_ring().spec_hash_function() == HashFunctionType::Sha256 {
                            assert(primary_outcome(ring, self.spec_nodes(), rf, hk, hk, r));
                        }
                    }
                    r
                }
            },
        };
        proof {
            assert(owner(ring, h1) == owner(ring, h1) && replica_order(ring, h1) == replica_order(ring, h1));
        }
        res
    }

    /// Joins `node_id` at `address` at `now_ms`: a joining record, the
    /// configured number of virtual nodes on the ring (kept on the record
    /// too), a rebalance check when rebalancing is automatic, and one more
    /// node counted. A node already known is refused; an error of the ring
    /// is passed on, leaving the record without virtual nodes.
    pub fn add_node(&mut self, node_id: NodeId, address: PeerAddress, now_ms: u64) -> (res: Result<(), ShardError>)
        requires
            old(self).wf(),
        ensures
            final(self).wf(),
            final(self).spec_config() == old(self).spec_config(),
            final(self).spec_migrator() == old(self).spec_migrator(),
            final(self).spec_running() == old(self).spec_running(),
            final(self).spec_ring().spec_hash_function() == old(self).spec_ring().spec_hash_function(),
            member_position(old(self).spec_nodes(), node_id@) is Some ==> {
                &&& res matches Err(ShardError::NodeAlreadyExists { node_id: n }) && n@ == node_id@
                &&& final(self).spec_nodes() == old(self).spec_nodes()
                &&& final(self).spec_ring() == old(self).spec_ring()
                &&& final(self).spec_metrics() == old(self).spec_metrics()
                &&& final(self).spec_last_rebalance() == old(self).spec_last_rebalance()
            },
            member_position(old(self).spec_nodes(), node_id@) is None ==> {
                let rec = final(self).spec_nodes().last();
                let count = old(self).spec_config().virtual_nodes;
                &&& final(self).spec_nodes().len() == old(self).spec_nodes().len() + 1
                &&& forall|i: int| 0 <= i < old(self).spec_nodes().len()
                    ==> info_same(#[trigger] final(self).spec_nodes()[i], old(self).spec_nodes()[i])
                &&& rec.id@ == node_id@
                &&& rec.address == address
                &&& rec.status == NodeStatus::Joining
                &&& rec.first_seen_ms == now_ms
                &&& rec.last_heartbeat_ms == now_ms
                &&& rec.metadata@.custom.len() == 0
                &&& match res {
                    Ok(_) => {
                        &&& exists|hashes: Seq<u64>| {
                            &&& #[trigger] hashes.len() == count
                            &&& extends_with(old(self).spec_ring()@, final(self).spec_ring()@, hashes, node_id@)
                            &&& vnode_views(rec.virtual_nodes@) == entries_at(hashes, node_id@)
                            &&& old(self).spec_ring().spec_hash_function() == HashFunctionType::Sha256 ==>
                                forall|k: int| 0 <= k < hashes.len() ==> #[trigger] hashes[k] == sha256_position(virtual_key(node_id@, k as nat))
                        }
                        &&& final(self).spec_metrics().spec_node_ops().nodes_added
                            == crate::net_metrics::bump(old(self).spec_metrics().spec_node_ops().nodes_added, 1)
                        &&& final(self).spec_metrics().spec_node_ops().nodes_removed == old(self).spec_metrics().spec_node_ops().nodes_removed
                        &&& final(self).spec_metrics().same_but_node_ops(&old(self).spec_metrics())
                        &&& if old(self).spec_config().auto_rebalance {
                            final(self).rebalance_checked(old(self), now_ms)
                        } else {
                            &&& final(self).spec_last_rebalance() == old(self).spec_last_rebalance()
                            &&& final(self).spec_metrics().spec_node_ops().rebalances_triggered
                                == old(self).spec_metrics().spec_node_ops().rebalances_triggered
                        }
                    },
                    Err(e) => {
                        &&& (count == 0 && e is InvalidConfiguration && final(self).spec_ring()@ == old(self).spec_ring()@)
                            || e is VirtualNodeCollision
                        &&& rec.virtual_nodes@.len() == 0
                        &&& final(self).spec_metrics() == old(self).spec_metrics()
                        &&& final(self).spec_last_rebalance() == old(self).spec_last_rebalance()
                    },
                }
            },
    {
        if self.find_node(&node_id).is_some() {
            return Err(ShardError::NodeAlreadyExists { node_id: node_id.into_string() });
        }
        let ghost old_nodes = self.nodes@;
        self.nodes.push(NodeInfo::new(node_id.clone(), address, now_ms));
        let k = self.nodes.len() - 1;
        proof {
            assert forall|i: int, j: int| 0 <= i < j < self.nodes@.len() implies self.nodes@[i].id@ != self.nodes@[j].id@ by {
                if j == k {
                    assert(old_nodes[i].id@ != node_id@);
                }
            }
            assert forall|i: int| 0 <= i < old_nodes.len() implies info_same(#[trigger] self.nodes@[i], old_nodes[i]) by {
                assert(self.nodes@[i] == old_nodes[i]);
            }
        }
        let hashes = match self.hash_ring.add_node(node_id.clone(), self.config.virtual_nodes) {
            Ok(h) => h,
            Err(e) => return Err(e),
        };
        let mut rec = self.nodes[k].clone();
        let mut i: usize = 0;
        while i < hashes.len()
            invariant
                i <= hashes@.len(),
                rec.id@ == node_id@,
                rec.address == address,
                rec.status == NodeStatus::Joining,
                rec.first_seen_ms == now_ms,
                rec.last_heartbeat_ms == now_ms,
                rec.metadata@.custom.len() == 0,
                vnode_views(rec.virtual_nodes@) == entries_at(hashes@.take(i as int), node_id@),
            decreases hashes@.len() - i,
        {
            rec.add_virtual_node(VirtualNode::new(hashes[i], node_id.clone(), i));
            assert(vnode_views(rec.virtual_nodes@) =~= entries_at(hashes@.take(i + 1), node_id@));
            i = i + 1;
        }
        assert(hashes@.take(hashes@.len() as int) =~= hashes@);
        self.nodes.set(k, rec);
        proof {
            assert forall|i: int, j: int| 0 <= i < j < self.nodes@.len() implies self.nodes@[i].id@ != self.nodes@[j].id@ by {
                if j == k {
                    assert(old_nodes[i].id@ != node_id@);
                }
            }
        }
        if self.config.auto_rebalance {
            let _ = self.trigger_rebalance(now_ms);
        }
        self.metrics.record_node_added();
        proof {
            assert(hashes@.len() == self.config.virtual_nodes);
        }
        Ok(())
    }

    /// Takes `node_id` out of the cluster: marks it leaving, plans a
    /// migration of each of its hash ranges, takes its virtual nodes off the
    /// ring, drops its record, checks the balance when rebalancing is
    /// automatic and counts the removal. An unknown node is refused; a node
    /// without virtual nodes stays, marked leaving, with the ring's error.
    pub fn remove_node(&mut self, node_id: &NodeId, now_ms: u64) -> (res: Result<(), ShardError>)
        requires
            old(self).wf(),
            old(self).spec_ring().positions_below_max(),
        ensures
            final(self).wf(),
            final(self).spec_config() == old(self).spec_config(),
            final(self).spec_running() == old(self).spec_running(),
            final(self).spec_ring().spec_hash_function() == old(self).spec_ring().spec_hash_function(),
            match member_position(old(self).spec_nodes(), node_id@) {
                None => {
                    &&& res matches Err(ShardError::NodeNotFound { node_id: n }) && n@ == node_id@
                    &&& final(self).spec_nodes() == old(self).spec_nodes()
                    &&& final(self).spec_ring() == old(self).spec_ring()
                    &&& final(self).spec_migrator() == old(self).spec_migrator()
                    &&& final(self).spec_metrics() == old(self).spec_metrics()
                    &&& final(self).spec_last_rebalance() == old(self).spec_last_rebalance()
                },
                Some(p) => {
                    &&& planned_after(old(self).spec_migrator().active(), final(self).spec_migrator().active(),
                            node_ranges(old(self).spec_ring()@, node_id@), node_id@)
                    &&& final(self).spec_migrator().history() == old(self).spec_migrator().history()
                    &&& positions_of(old(self).spec_ring()@, node_id@).len() == 0 ==> {
                        &&& res matches Err(ShardError::NodeNotFound { node_id: n }) && n@ == node_id@
                        &&& final(self).spec_ring()@ == old(self).spec_ring()@
                        &&& final(self).spec_nodes().len() == old(self).spec_nodes().len()
                        &&& final(self).spec_nodes()[p].status == NodeStatus::Leaving
                        &&& info_same(final(self).spec_nodes()[p], NodeInfo { status: NodeStatus::Leaving, ..old(self).spec_nodes()[p] })
                        &&& forall|i: int| 0 <= i < old(self).spec_nodes().len() && i != p
                            ==> info_same(#[trigger] final(self).spec_nodes()[i], old(self).spec_nodes()[i])
                        &&& final(self).spec_metrics() == old(self).spec_metrics()
                        &&& final(self).spec_last_rebalance() == old(self).spec_last_rebalance()
                    }
                    &&& positions_of(old(self).spec_ring()@, node_id@).len() > 0 ==> {
                        &&& res is Ok
                        &&& final(self).spec_ring()@ == without_node(old(self).spec_ring()@, node_id@)
                        &&& final(self).spec_nodes().len() == old(self).spec_nodes().len() - 1
                        &&& forall|i: int| 0 <= i < p ==> info_same(#[trigger] final(self).spec_nodes()[i], old(self).spec_nodes()[i])
                        &&& forall|i: int| p <= i < final(self).spec_nodes().len()
                            ==> info_same(#[trigger] final(self).spec_nodes()[i], old(self).spec_nodes()[i + 1])
                        &&& final(self).spec_metrics().spec_node_ops().nodes_removed
                            == crate::net_metrics::bump(old(self).spec_metrics().spec_node_ops().nodes_removed, 1)
                        &&& final(self).spec_metrics().spec_node_ops().nodes_added == old(self).spec_metrics().spec_node_ops().nodes_added
                        &&& final(self).spec_metrics().same_but_node_ops(&old(self).spec_metrics())
                        &&& if old(self).spec_config().auto_rebalance {
                            final(self).rebalance_checked(old(self), now_ms)
                        } else {
                            &&& final(self).spec_last_rebalance() == old(self).spec_last_rebalance()
                            &&& final(self).spec_metrics().spec_node_ops().rebalances_triggered
                                == old(self).spec_metrics().spec_node_ops().rebalances_triggered
                        }
                    }
                },
            },
    {
        let p = match self.find_node(node_id) {
            None => return Err(ShardError::NodeNotFound { node_id: node_id.as_str().to_string() }),
            Some(p) => p,
        };
        let ghost old_nodes = self.nodes@;
        let mut rec = self.nodes[p].clone();
        rec.status = NodeStatus::Leaving;
        self.nodes.set(p, rec);
        let ranges = self.hash_ring.get_node_ranges(node_id);
        let ghost old_active = self.migrator.active();
        let ghost nodes_now = self.nodes@;
        assert(old_active.take(old_active.len() as int) =~= old_active);
        let mut i: usize = 0;
        while i < ranges.len()
            invariant
                i <= ranges@.len(),
                self.hash_ring == old(self).hash_ring,
                self.nodes@ == nodes_now,
                self.metrics == old(self).metrics,
                self.config == old(self).config,
                self.running == old(self).running,
                self.last_rebalance_ms == old(self).last_rebalance_ms,
                self.migrator.history() == old(self).spec_migrator().history(),
                planned_after(old_active, self.migrator.active(), ranges@.take(i as int), node_id@),
            decreases ranges@.len() - i,
        {
            let (start, end) = ranges[i];
            let ghost before = self.migrator.active();
            let _ = self.migrator.plan_range_migration(start, end, node_id.clone());
            proof {
                let t = ranges@.take(i + 1);
                assert(self.migrator.active().take(old_active.len() as int) =~= old_active) by {
                    assert(self.migrator.active().drop_last() == before);
                    assert(before.take(old_active.len() as int) == old_active);
                }
                assert forall|k: int| 0 <= k < t.len() implies {
                    let m = #[trigger] self.migrator.active()[old_active.len() + k];
                    &&& m.range == t[k]
                    &&& m.source == node_id@
                    &&& m.destination == "destination-node"@
                    &&& m.status == MigrationStatus::Planned
                } by {
                    if k < i {
                        assert(self.migrator.active()[old_active.len() + k] == before[old_active.len() + k]);
                        assert(ranges@.take(i as int)[k] == t[k]);
                    }
                }
            }
            i = i + 1;
        }
        assert(ranges@.take(ranges@.len() as int) =~= ranges@);
        match self.hash_ring.remove_node(node_id) {
            Err(e) => return Err(e),
            Ok(_) => {},
        }
        let ghost leaving = self.nodes@;
        self.nodes.remove(p);
        proof {
            leaving.remove_ensures(p as int);
        }
        if self.config.auto_rebalance {
            let _ = self.trigger_rebalance(now_ms);
        }
        self.metrics.record_node_removed();
        Ok(())
    }

    /// The counters of the manager.
    pub fn get_metrics(&self) -> (res: &ShardMetrics)
        ensures
            *res == self.spec_metrics(),
    {
        &self.metrics
    }

    /// One round of the metrics task: the cluster statistics now, recorded
    /// at `now_ms` as the newest.
    pub fn collect_cluster_stats(&mut self, now_ms: u64)
        requires
            old(self).wf(),
        ensures
            final(self).wf(),
            final(self).spec_metrics().spec_history() == crate::shard_metrics::windowed(
                old(self).spec_metrics().spec_history(),
                crate::shard_metrics::ClusterStatsEntry { timestamp_ms: now_ms, stats: ClusterStats {
                    total_nodes: old(self).spec_nodes().len() as usize,
                    healthy_nodes: with_status(old(self).spec_nodes(), NodeStatus::Healthy) as usize,
                    degraded_nodes: with_status(old(self).spec_nodes(), NodeStatus::Degraded) as usize,
                    failed_nodes: with_status(old(self).spec_nodes(), NodeStatus::Failed) as usize,
                    virtual_nodes: old(self).spec_ring()@.len() as usize,
                    replication_factor: old(self).spec_config().replication_factor,
                    is_balanced: balanced(old(self).spec_ring()@, old(self).spec_config().rebalance_threshold_permille as nat),
                } },
                crate::shard_metrics::MAX_HISTORY as nat),
            final(self).spec_metrics().spec_last_update() == Some(now_ms),
            final(self).spec_metrics().spec_node_ops() == old(self).spec_metrics().spec_node_ops(),
            final(self).spec_metrics().spec_migration() == old(self).spec_metrics().spec_migration(),
            final(self).spec_metrics().spec_error_counts() == old(self).spec_metrics().spec_error_counts(),
            final(self).spec_config() == old(self).spec_config(),
            final(self).spec_ring() == old(self).spec_ring(),
            final(self).spec_nodes() == old(self).spec_nodes(),
            final(self).spec_migrator() == old(self).spec_migrator(),
            final(self).spec_running() == old(self).spec_running(),
            final(self).spec_last_rebalance() == old(self).spec_last_rebalance(),
    {
        let stats = self.get_cluster_stats();
        self.metrics.update_cluster_stats(stats, now_ms);
    }
}

} // verus!

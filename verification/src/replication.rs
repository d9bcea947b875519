//! Replication groups: a primary and secondary replicas per hash range,
//! quorum rules and the bookkeeping of replicated reads and writes.

use vstd::prelude::*;
use vstd::multiset::Multiset;
use std::time::SystemTime;
use crate::clock::system_now;
use crate::ids::{random_uuid, uuid_text, uuid_to_string};
use crate::text::{concat_str, decimal, u64_to_decimal};
use crate::node::NodeId;
use crate::shard_error::ShardError;
use crate::gossip::random_index;
use crate::query_text::{default_hash, hash_text};
use vstd::utf8::encode_utf8;

verus! {

/// Identifier of a replica.
#[derive(Debug, Clone, Copy, PartialEq, Eq, Hash, Structural)]
pub struct ReplicaId(u128);

impl View for ReplicaId {
    type V = u128;

    closed spec fn view(&self) -> u128 {
        self.0
    }
}

impl ReplicaId {
    /// A fresh random identifier.
    pub fn new() -> (res: ReplicaId) {
        ReplicaId(random_uuid())
    }

    /// The identifier's 128-bit value.
    pub fn as_u128(&self) -> (res: u128)
        ensures
            res == self@,
    {
        self.0
    }

    /// The identifier with the given value.
    pub fn from_u128(value: u128) -> (res: ReplicaId)
        ensures
            res@ == value,
    {
        ReplicaId(value)
    }
}

/// Status of a replica.
#[derive(Debug, Clone, Copy, PartialEq, Eq, Structural)]
pub enum ReplicaStatus {
    Healthy,
    Lagging,
    Failed,
    Syncing,
    Removing,
}

impl Default for ReplicaStatus {
    fn default() -> (res: Self)
        ensures
            res == ReplicaStatus::Healthy,
    {
        ReplicaStatus::Healthy
    }
}

/// What a replica is: identity, host, status and sync progress.
pub struct ReplicaView {
    pub id: u128,
    pub node: Seq<char>,
    pub status: ReplicaStatus,
    pub lag_ms: u64,
    pub operations_applied: u64,
}

/// A replica of a hash range hosted by a node.
#[derive(Debug)]
pub struct ReplicaInfo {
    pub id: ReplicaId,
    pub node_id: NodeId,
    pub status: ReplicaStatus,
    pub last_sync: SystemTime,
    pub lag_ms: u64,
    pub operations_applied: u64,
    pub checksum: Option<String>,
}

impl View for ReplicaInfo {
    type V = ReplicaView;

    open spec fn view(&self) -> ReplicaView {
        ReplicaView {
            id: self.id@,
            node: self.node_id@,
            status: self.status,
            lag_ms: self.lag_ms,
            operations_applied: self.operations_applied,
        }
    }
}

impl Clone for ReplicaInfo {
    fn clone(&self) -> (res: Self)
        ensures
            res@ == self@,
    {
        ReplicaInfo {
            id: self.id,
            node_id: self.node_id.clone(),
            status: self.status,
            last_sync: self.last_sync,
            lag_ms: self.lag_ms,
            operations_applied: self.operations_applied,
            checksum: self.checksum.clone(),
        }
    }
}

/// The status a lag implies: healthy below one second, lagging below ten,
/// failed beyond.
pub open spec fn status_for_lag(lag_ms: u64) -> ReplicaStatus {
    if lag_ms < 1000 {
        ReplicaStatus::Healthy
    } else if lag_ms < 10000 {
        ReplicaStatus::Lagging
    } else {
        ReplicaStatus::Failed
    }
}

/// Healthy and lagging replicas serve reads.
pub open spec fn readable(r: ReplicaView) -> bool {
    r.status == ReplicaStatus::Healthy || r.status == ReplicaStatus::Lagging
}

/// Only healthy replicas take writes.
pub open spec fn writable(r: ReplicaView) -> bool {
    r.status == ReplicaStatus::Healthy
}

impl ReplicaInfo {
    /// A new replica of `node_id`, still syncing.
    pub fn new(node_id: NodeId) -> (res: ReplicaInfo)
        ensures
            res@.node == node_id@,
            res@.status == ReplicaStatus::Syncing,
            res@.lag_ms == 0,
            res@.operations_applied == 0,
            res.checksum is None,
    {
        ReplicaInfo {
            id: ReplicaId::new(),
            node_id,
            status: ReplicaStatus::Syncing,
            last_sync: system_now(),
            lag_ms: 0,
            operations_applied: 0,
            checksum: None,
        }
    }

    /// Records a sync: progress, lag, and the status the lag implies.
    pub fn update_sync(&mut self, operations_applied: u64, lag_ms: u64)
        ensures
            final(self)@ == (ReplicaView {
                operations_applied,
                lag_ms,
                status: status_for_lag(lag_ms),
                ..old(self)@
            }),
    {
        self.last_sync = system_now();
        self.operations_applied = operations_applied;
        self.lag_ms = lag_ms;
        self.status = if lag_ms < 1000 {
            ReplicaStatus::Healthy
        } else if lag_ms < 10000 {
            ReplicaStatus::Lagging
        } else {
            ReplicaStatus::Failed
        };
    }

    /// Whether the replica serves reads.
    pub fn is_readable(&self) -> (res: bool)
        ensures
            res == readable(self@),
    {
        match self.status {
            ReplicaStatus::Healthy | ReplicaStatus::Lagging => true,
            _ => false,
        }
    }

    /// Whether the replica takes writes.
    pub fn is_writable(&self) -> (res: bool)
        ensures
            res == writable(self@),
    {
        match self.status {
            ReplicaStatus::Healthy => true,
            _ => false,
        }
    }
}

/// The replicas among `s` satisfying `p`, in order.
pub open spec fn keep(s: Seq<ReplicaView>, p: spec_fn(ReplicaView) -> bool) -> Seq<ReplicaView>
    decreases s.len(),
{
    if s.len() == 0 {
        s
    } else if p(s.last()) {
        keep(s.drop_last(), p).push(s.last())
    } else {
        keep(s.drop_last(), p)
    }
}

/// Replicas whose identifier differs from `id`.
pub open spec fn id_differs(id: u128) -> spec_fn(ReplicaView) -> bool {
    |r: ReplicaView| r.id != id
}

/// The views of a sequence of replicas.
pub open spec fn replica_views(s: Seq<ReplicaInfo>) -> Seq<ReplicaView> {
    s.map_values(|r: ReplicaInfo| r@)
}

/// The views of a sequence of borrowed replicas.
pub open spec fn replica_ref_views(s: Seq<&ReplicaInfo>) -> Seq<ReplicaView> {
    s.map_values(|r: &ReplicaInfo| r@)
}

/// No two replicas of `s` live on the same node.
pub open spec fn distinct_hosts(s: Seq<ReplicaView>) -> bool {
    forall|i: int, j: int| 0 <= i < s.len() && 0 <= j < s.len() && i != j ==> s[i].node != s[j].node
}

/// The majority of a replication factor.
pub open spec fn majority(replication_factor: usize) -> int {
    replication_factor / 2 + 1
}

/// What a replication group is.
pub struct GroupView {
    pub range: (u64, u64),
    pub primary: ReplicaView,
    pub secondaries: Seq<ReplicaView>,
    pub replication_factor: usize,
}

impl GroupView {
    /// The primary followed by the secondaries.
    pub open spec fn replicas(self) -> Seq<ReplicaView> {
        seq![self.primary] + self.secondaries
    }
}

/// The replicas of a hash range: one primary and its secondaries.
#[derive(Debug)]
pub struct ReplicationGroup {
    pub range: (u64, u64),
    pub primary: ReplicaInfo,
    pub secondaries: Vec<ReplicaInfo>,
    pub replication_factor: usize,
    pub created_at: SystemTime,
    pub modified_at: SystemTime,
}

impl View for ReplicationGroup {
    type V = GroupView;

    open spec fn view(&self) -> GroupView {
        GroupView {
            range: self.range,
            primary: self.primary@,
            secondaries: replica_views(self.secondaries@),
            replication_factor: self.replication_factor,
        }
    }
}

impl Clone for ReplicationGroup {
    fn clone(&self) -> (res: Self)
        ensures
            res@ == self@,
    {
        let mut secondaries: Vec<ReplicaInfo> = Vec::new();
        let mut i: usize = 0;
        while i < self.secondaries.len()
            invariant
                i <= self.secondaries@.len(),
                secondaries@.len() == i,
                forall|k: int| 0 <= k < i ==> (#[trigger] secondaries@[k])@ == self.secondaries@[k]@,
            decreases self.secondaries@.len() - i,
        {
            secondaries.push(self.secondaries[i].clone());
            i = i + 1;
        }
        let res = ReplicationGroup {
            range: self.range,
            primary: self.primary.clone(),
            secondaries,
            replication_factor: self.replication_factor,
            created_at: self.created_at,
            modified_at: self.modified_at,
        };
        assert(replica_views(res.secondaries@) =~= replica_views(self.secondaries@));
        res
    }
}

impl ReplicationGroup {
    /// A group for `range` whose primary (still syncing) lives on `primary_node`.
    pub fn new(range: (u64, u64), primary_node: NodeId, replication_factor: usize) -> (res: ReplicationGroup)
        ensures
            res@.range == range,
            res@.primary.node == primary_node@,
            res@.primary.status == ReplicaStatus::Syncing,
            res@.primary.lag_ms == 0,
            res@.primary.operations_applied == 0,
            res@.secondaries.len() == 0,
            res@.replication_factor == replication_factor,
    {
        let now = system_now();
        let primary = ReplicaInfo::new(primary_node);
        let res = ReplicationGroup {
            range,
            primary,
            secondaries: Vec::new(),
            replication_factor,
            created_at: now,
            modified_at: now,
        };
        assert(res@.secondaries =~= Seq::<ReplicaView>::empty());
        res
    }

    /// Whether some secondary lives on `node_id`.
    fn hosts_secondary(&self, node_id: &NodeId) -> (res: bool)
        ensures
            res == exists|k: int| 0 <= k < self@.secondaries.len() && self@.secondaries[k].node == node_id@,
    {
        let mut i: usize = 0;
        while i < self.secondaries.len()
            invariant
                i <= self.secondaries@.len(),
                forall|k: int| 0 <= k < i ==> self@.secondaries[k].node != node_id@,
            decreases self.secondaries@.len() - i,
        {
            if self.secondaries[i].node_id.same_as(node_id) {
                assert(self@.secondaries[i as int].node == node_id@);
                return true;
            }
            i = i + 1;
        }
        false
    }

    /// Adds a secondary replica on `node_id`. Refused when the group
    /// already has `replication_factor - 1` secondaries or when the node
    /// already hosts one of the group's replicas.
    pub fn add_secondary(&mut self, node_id: NodeId) -> (res: Result<ReplicaId, ShardError>)
        requires
            old(self)@.replication_factor >= 1,
        ensures
            old(self)@.secondaries.len() >= old(self)@.replication_factor - 1 ==> (res matches Err(
                ShardError::InvalidConfiguration { reason },
            ) && reason@ == "Cannot add more replicas, already have "@ + decimal(
                old(self)@.secondaries.len(),
            ) + " secondaries for replication factor "@ + decimal(old(self)@.replication_factor as nat)),
            old(self)@.secondaries.len() < old(self)@.replication_factor - 1 && old(self)@.primary.node == node_id@
                ==> (res matches Err(ShardError::InvalidConfiguration { reason })
                && reason@ == "Node already hosts the primary replica"@),
            old(self)@.secondaries.len() < old(self)@.replication_factor - 1 && old(self)@.primary.node != node_id@
                && (exists|k: int| 0 <= k < old(self)@.secondaries.len() && old(self)@.secondaries[k].node == node_id@)
                ==> (res matches Err(ShardError::InvalidConfiguration { reason })
                && reason@ == "Node already hosts a secondary replica"@),
            res is Err ==> final(self)@ == old(self)@,
            res matches Ok(id) ==> {
                &&& final(self)@.range == old(self)@.range
                &&& final(self)@.primary == old(self)@.primary
                &&& final(self)@.replication_factor == old(self)@.replication_factor
                &&& final(self)@.secondaries.len() == old(self)@.secondaries.len() + 1
                &&& final(self)@.secondaries.drop_last() == old(self)@.secondaries
                &&& final(self)@.secondaries.last().id == id@
                &&& final(self)@.secondaries.last().node == node_id@
                &&& final(self)@.secondaries.last().status == ReplicaStatus::Syncing
                &&& final(self)@.secondaries.last().lag_ms == 0
                &&& final(self)@.secondaries.last().operations_applied == 0
            },
            res is Ok <==> (old(self)@.secondaries.len() < old(self)@.replication_factor - 1
                && old(self)@.primary.node != node_id@
                && !(exists|k: int| 0 <= k < old(self)@.secondaries.len() && old(self)@.secondaries[k].node == node_id@)),
            distinct_hosts(old(self)@.replicas()) ==> distinct_hosts(final(self)@.replicas()),
    {
        if self.secondaries.len() >= self.replication_factor - 1 {
            let a = concat_str("Cannot add more replicas, already have ", u64_to_decimal(self.secondaries.len() as u64).as_str());
            let b = concat_str(a.as_str(), " secondaries for replication factor ");
            let reason = concat_str(b.as_str(), u64_to_decimal(self.replication_factor as u64).as_str());
            return Err(ShardError::InvalidConfiguration { reason });
        }
        if self.primary.node_id.same_as(&node_id) {
            return Err(ShardError::InvalidConfiguration { reason: "Node already hosts the primary replica".to_owned() });
        }
        if self.hosts_secondary(&node_id) {
            return Err(ShardError::InvalidConfiguration { reason: "Node already hosts a secondary replica".to_owned() });
        }
        let ghost old_reps = self@.replicas();
        let replica = ReplicaInfo::new(node_id);
        let replica_id = replica.id;
        self.secondaries.push(replica);
        self.modified_at = system_now();
        proof {
            assert(self@.secondaries =~= old(self)@.secondaries.push(replica@));
            assert(self@.secondaries.drop_last() =~= old(self)@.secondaries);
            let reps = self@.replicas();
            assert(reps =~= old_reps.push(replica@));
            if distinct_hosts(old_reps) {
                assert forall|i: int, j: int| 0 <= i < reps.len() && 0 <= j < reps.len() && i != j
                    implies reps[i].node != reps[j].node by {
                    if i == reps.len() - 1 && j > 0 {
                        assert(reps[j] == old(self)@.secondaries[j - 1]);
                    }
                    if j == reps.len() - 1 && i > 0 {
                        assert(reps[i] == old(self)@.secondaries[i - 1]);
                    }
                }
            }
        }
        Ok(replica_id)
    }
}

impl ReplicationGroup {
    /// Removes the secondary with identifier `replica_id`. Fails with
    /// `ReplicaNotFound` when no secondary has it.
    pub fn remove_secondary(&mut self, replica_id: &ReplicaId) -> (res: Result<(), ShardError>)
        ensures
            final(self)@.range == old(self)@.range,
            final(self)@.primary == old(self)@.primary,
            final(self)@.replication_factor == old(self)@.replication_factor,
            final(self)@.secondaries == keep(old(self)@.secondaries, id_differs(replica_id@)),
            res is Ok <==> final(self)@.secondaries.len() < old(self)@.secondaries.len(),
            res is Ok <==> exists|k: int| 0 <= k < old(self)@.secondaries.len() && old(self)@.secondaries[k].id == replica_id@,
            res matches Err(e) ==> (e matches ShardError::ReplicaNotFound { replica_id: t } && t@ == uuid_text(replica_id@)),
            distinct_hosts(old(self)@.replicas()) ==> distinct_hosts(final(self)@.replicas()),
    {
        let ghost old_secs = self@.secondaries;
        let ghost p = id_differs(replica_id@);
        let mut kept: Vec<ReplicaInfo> = Vec::new();
        let n = self.secondaries.len();
        let mut i: usize = 0;
        while i < n
            invariant
                n == self.secondaries@.len(),
                old_secs == replica_views(self.secondaries@),
                i <= n,
                replica_views(kept@) == keep(old_secs.take(i as int), id_differs(replica_id@)),
                kept@.len() <= i,
                kept@.len() == i <==> forall|k: int| 0 <= k < i ==> old_secs[k].id != replica_id@,
            decreases n - i,
        {
            proof {
                assert(old_secs.take(i as int + 1).drop_last() =~= old_secs.take(i as int));
                assert(old_secs[i as int] == self.secondaries@[i as int]@);
            }
            proof {
                assert(old_secs.take(i as int + 1).last() == old_secs[i as int]);
            }
            if self.secondaries[i].id != *replica_id {
                let ghost before = kept@;
                kept.push(self.secondaries[i].clone());
                proof {
                    assert(id_differs(replica_id@)(old_secs[i as int]));
                    assert(replica_views(kept@) =~= replica_views(before).push(old_secs[i as int]));
                }
            } else {
                proof {
                    assert(!id_differs(replica_id@)(old_secs[i as int]));
                }
            }
            i = i + 1;
        }
        proof {
            assert(old_secs.take(n as int) =~= old_secs);
            lemma_keep_subseq(old_secs, p);
            lemma_keep_hosts(old_secs, p);
            let pr = self@.primary;
            let before = seq![pr] + old_secs;
            let after = seq![pr] + keep(old_secs, p);
            if distinct_hosts(before) {
                assert forall|a: int, b: int| 0 <= a < after.len() && 0 <= b < after.len() && a != b
                    implies after[a].node != after[b].node by {
                    if a == 0 {
                        assert(after[b] == keep(old_secs, p)[b - 1]);
                        assert(keep(old_secs, p).contains(after[b]));
                        assert(old_secs.contains(after[b]));
                        let m = choose|m: int| 0 <= m < old_secs.len() && old_secs[m] == after[b];
                        assert(before[m + 1] == after[b]);
                        assert(before[0] == after[0]);
                    } else if b == 0 {
                        assert(after[a] == keep(old_secs, p)[a - 1]);
                        assert(keep(old_secs, p).contains(after[a]));
                        assert(old_secs.contains(after[a]));
                        let m = choose|m: int| 0 <= m < old_secs.len() && old_secs[m] == after[a];
                        assert(before[m + 1] == after[a]);
                        assert(before[0] == after[0]);
                    } else {
                        assert(distinct_hosts(old_secs)) by {
                            assert forall|x: int, y: int| 0 <= x < old_secs.len() && 0 <= y < old_secs.len() && x != y
                                implies old_secs[x].node != old_secs[y].node by {
                                assert(before[x + 1] == old_secs[x]);
                                assert(before[y + 1] == old_secs[y]);
                            }
                        }
                        assert(after[a] == keep(old_secs, p)[a - 1]);
                        assert(after[b] == keep(old_secs, p)[b - 1]);
                        assert(distinct_hosts(keep(old_secs, p)));
                    }
                }
            }
        }
        if kept.len() == n {
            proof {
                lemma_keep_all(old_secs, p);
            }
            self.secondaries = kept;
            return Err(ShardError::ReplicaNotFound { replica_id: uuid_to_string(replica_id.as_u128()) });
        }
        self.secondaries = kept;
        self.modified_at = system_now();
        Ok(())
    }

    /// The primary followed by the secondaries.
    pub fn all_replicas(&self) -> (res: Vec<&ReplicaInfo>)
        ensures
            replica_ref_views(res@) == self@.replicas(),
    {
        let mut out: Vec<&ReplicaInfo> = Vec::new();
        out.push(&self.primary);
        let mut i: usize = 0;
        while i < self.secondaries.len()
            invariant
                i <= self.secondaries@.len(),
                replica_ref_views(out@) == self@.replicas().take(i as int + 1),
            decreases self.secondaries@.len() - i,
        {
            let ghost before = out@;
            out.push(&self.secondaries[i]);
            proof {
                assert(replica_ref_views(out@) =~= replica_ref_views(before).push(self.secondaries@[i as int]@));
                assert(self@.replicas().take(i as int + 2) =~= self@.replicas().take(i as int + 1).push(
                    self@.replicas()[i as int + 1],
                ));
            }
            i = i + 1;
        }
        proof {
            assert(self@.replicas().take(self.secondaries@.len() as int + 1) =~= self@.replicas());
        }
        out
    }

    /// The replicas serving reads (healthy or lagging), primary first.
    pub fn healthy_replicas(&self) -> (res: Vec<&ReplicaInfo>)
        ensures
            replica_ref_views(res@) == keep(self@.replicas(), |r: ReplicaView| readable(r)),
    {
        let all = self.all_replicas();
        let ghost reps = self@.replicas();
        let mut out: Vec<&ReplicaInfo> = Vec::new();
        let mut i: usize = 0;
        while i < all.len()
            invariant
                i <= all@.len(),
                replica_ref_views(all@) == reps,
                replica_ref_views(out@) == keep(reps.take(i as int), |r: ReplicaView| readable(r)),
            decreases all@.len() - i,
        {
            proof {
                assert(reps.take(i as int + 1).drop_last() =~= reps.take(i as int));
                assert(reps[i as int] == all@[i as int]@);
            }
            if all[i].is_readable() {
                let ghost before = out@;
                out.push(all[i]);
                proof {
                    assert(replica_ref_views(out@) =~= replica_ref_views(before).push(reps[i as int]));
                }
            }
            i = i + 1;
        }
        proof {
            assert(reps.take(all@.len() as int) =~= reps);
        }
        out
    }

    /// The replicas taking writes (healthy), primary first.
    pub fn writable_replicas(&self) -> (res: Vec<&ReplicaInfo>)
        ensures
            replica_ref_views(res@) == keep(self@.replicas(), |r: ReplicaView| writable(r)),
    {
        let all = self.all_replicas();
        let ghost reps = self@.replicas();
        let mut out: Vec<&ReplicaInfo> = Vec::new();
        let mut i: usize = 0;
        while i < all.len()
            invariant
                i <= all@.len(),
                replica_ref_views(all@) == reps,
                replica_ref_views(out@) == keep(reps.take(i as int), |r: ReplicaView| writable(r)),
            decreases all@.len() - i,
        {
            proof {
                assert(reps.take(i as int + 1).drop_last() =~= reps.take(i as int));
                assert(reps[i as int] == all@[i as int]@);
            }
            if all[i].is_writable() {
                let ghost before = out@;
                out.push(all[i]);
                proof {
                    assert(replica_ref_views(out@) =~= replica_ref_views(before).push(reps[i as int]));
                }
            }
            i = i + 1;
        }
        proof {
            assert(reps.take(all@.len() as int) =~= reps);
        }
        out
    }

    /// Number of replicas forming a majority of the replication factor.
    pub fn quorum_size(&self) -> (res: usize)
        ensures
            res == majority(self@.replication_factor),
    {
        self.replication_factor / 2 + 1
    }

    /// Whether a majority of the replication factor serves reads.
    pub fn has_quorum(&self) -> (res: bool)
        ensures
            res == (keep(self@.replicas(), |r: ReplicaView| readable(r)).len() >= majority(self@.replication_factor)),
    {
        let healthy_count = self.healthy_replicas().len();
        let required_quorum = self.replication_factor / 2 + 1;
        healthy_count >= required_quorum
    }

    /// Whether the group holds exactly `replication_factor` replicas.
    pub fn is_fully_replicated(&self) -> (res: bool)
        ensures
            res == (self@.replicas().len() == self@.replication_factor),
    {
        self.all_replicas().len() == self.replication_factor
    }

    /// Makes the secondary `replica_id` the primary; the former primary
    /// becomes the last secondary. Fails with `ReplicaNotFound` otherwise.
    pub fn promote_secondary(&mut self, replica_id: &ReplicaId) -> (res: Result<(), ShardError>)
        ensures
            final(self)@.range == old(self)@.range,
            final(self)@.replication_factor == old(self)@.replication_factor,
            res is Ok <==> exists|k: int| 0 <= k < old(self)@.secondaries.len() && old(self)@.secondaries[k].id == replica_id@,
            res matches Err(e) ==> (e matches ShardError::ReplicaNotFound { replica_id: t } && t@ == uuid_text(replica_id@)
                && final(self)@ == old(self)@),
            res is Ok ==> exists|k: int| #![trigger old(self)@.secondaries[k]] {
                &&& 0 <= k < old(self)@.secondaries.len()
                &&& old(self)@.secondaries[k].id == replica_id@
                &&& forall|j: int| 0 <= j < k ==> old(self)@.secondaries[j].id != replica_id@
                &&& final(self)@.primary == old(self)@.secondaries[k]
                &&& final(self)@.secondaries == old(self)@.secondaries.remove(k).push(old(self)@.primary)
            },
            final(self)@.replicas().to_multiset() == old(self)@.replicas().to_multiset(),
    {
        let mut i: usize = 0;
        while i < self.secondaries.len() && self.secondaries[i].id != *replica_id
            invariant
                i <= self.secondaries@.len(),
                forall|j: int| 0 <= j < i ==> self@.secondaries[j].id != replica_id@,
            decreases self.secondaries@.len() - i,
        {
            i = i + 1;
        }
        if i == self.secondaries.len() {
            return Err(ShardError::ReplicaNotFound { replica_id: uuid_to_string(replica_id.as_u128()) });
        }
        let ghost old_view = self@;
        let new_primary = self.secondaries.remove(i);
        let ghost promoted = new_primary@;
        let mut old_primary = new_primary;
        std::mem::swap(&mut self.primary, &mut old_primary);
        self.secondaries.push(old_primary);
        self.modified_at = system_now();
        proof {
            let k = i as int;
            assert(self@.secondaries =~= old_view.secondaries.remove(k).push(old_view.primary));
            assert(old_view.secondaries[k] == promoted);
            let a = old_view.replicas();
            let b = self@.replicas();
            broadcast use vstd::seq_lib::group_to_multiset_ensures;
            assert(b =~= seq![old_view.secondaries[k]] + old_view.secondaries.remove(k).push(old_view.primary));
            lemma_promote_multiset(old_view.primary, old_view.secondaries, k);
        }
        Ok(())
    }
}

/// Swapping the primary with secondary `k` permutes the replicas.
proof fn lemma_promote_multiset(p: ReplicaView, secs: Seq<ReplicaView>, k: int)
    requires
        0 <= k < secs.len(),
    ensures
        (seq![secs[k]] + secs.remove(k).push(p)).to_multiset() == (seq![p] + secs).to_multiset(),
{
    broadcast use vstd::seq_lib::group_to_multiset_ensures;
    let a = seq![p] + secs;
    let b = seq![secs[k]] + secs.remove(k).push(p);
    vstd::seq_lib::lemma_multiset_commutative(seq![p], secs);
    vstd::seq_lib::lemma_multiset_commutative(seq![secs[k]], secs.remove(k).push(p));
    assert(secs.remove(k).push(p).to_multiset() == secs.remove(k).to_multiset().insert(p));
    assert(secs.remove(k).to_multiset() == secs.to_multiset().remove(secs[k]));
    assert(seq![p].to_multiset() =~= Multiset::empty().insert(p)) by {
        assert(seq![p] =~= Seq::<ReplicaView>::empty().push(p));
    }
    assert(seq![secs[k]].to_multiset() =~= Multiset::empty().insert(secs[k])) by {
        assert(seq![secs[k]] =~= Seq::<ReplicaView>::empty().push(secs[k]));
    }
    assert(secs.to_multiset().count(secs[k]) > 0) by {
        assert(secs.contains(secs[k]));
    }
    assert(a.to_multiset() =~= b.to_multiset());
}

/// `keep` yields a subsequence: never longer than its argument.
proof fn lemma_keep_subseq(s: Seq<ReplicaView>, p: spec_fn(ReplicaView) -> bool)
    ensures
        keep(s, p).len() <= s.len(),
        keep(s, p).len() == s.len() <==> forall|k: int| 0 <= k < s.len() ==> p(s[k]),
    decreases s.len(),
{
    if s.len() > 0 {
        lemma_keep_subseq(s.drop_last(), p);
        if !p(s.last()) {
            assert(!p(s[s.len() - 1]));
        }
        assert forall|k: int| 0 <= k < s.len() - 1 implies s[k] == s.drop_last()[k] by {}
    }
}

/// `keep` only keeps elements of its argument, and keeps hosts distinct.
proof fn lemma_keep_hosts(s: Seq<ReplicaView>, p: spec_fn(ReplicaView) -> bool)
    ensures
        forall|x: ReplicaView| keep(s, p).contains(x) ==> s.contains(x),
        distinct_hosts(s) ==> distinct_hosts(keep(s, p)),
    decreases s.len(),
{
    if s.len() > 0 {
        let d = s.drop_last();
        lemma_keep_hosts(d, p);
        let k = keep(d, p);
        assert forall|x: ReplicaView| d.contains(x) implies s.contains(x) by {
            let j = choose|j: int| 0 <= j < d.len() && d[j] == x;
            assert(s[j] == x);
        }
        if p(s.last()) {
            let t = k.push(s.last());
            assert forall|x: ReplicaView| t.contains(x) implies s.contains(x) by {
                let j = choose|j: int| 0 <= j < t.len() && t[j] == x;
                if j < t.len() - 1 {
                    assert(k[j] == x);
                    assert(k.contains(x));
                } else {
                    assert(s[s.len() - 1] == x);
                }
            }
            if distinct_hosts(s) {
                assert(distinct_hosts(d)) by {
                    assert forall|x: int, y: int| 0 <= x < d.len() && 0 <= y < d.len() && x != y
                        implies d[x].node != d[y].node by {
                        assert(s[x] == d[x]);
                        assert(s[y] == d[y]);
                    }
                }
                assert forall|a: int, b: int| 0 <= a < t.len() && 0 <= b < t.len() && a != b
                    implies t[a].node != t[b].node by {
                    if a == t.len() - 1 {
                        assert(k[b] == t[b]);
                        assert(k.contains(t[b]));
                        assert(d.contains(t[b]));
                        let m = choose|m: int| 0 <= m < d.len() && d[m] == t[b];
                        assert(s[m] == t[b]);
                    } else if b == t.len() - 1 {
                        assert(k[a] == t[a]);
                        assert(k.contains(t[a]));
                        assert(d.contains(t[a]));
                        let m = choose|m: int| 0 <= m < d.len() && d[m] == t[a];
                        assert(s[m] == t[a]);
                    } else {
                        assert(t[a] == k[a]);
                        assert(t[b] == k[b]);
                    }
                }
            }
        } else {
            if distinct_hosts(s) {
                assert forall|x: int, y: int| 0 <= x < d.len() && 0 <= y < d.len() && x != y
                    implies d[x].node != d[y].node by {
                    assert(s[x] == d[x]);
                    assert(s[y] == d[y]);
                }
            }
        }
    }
}

/// `keep` leaves a sequence whose elements all pass unchanged.
proof fn lemma_keep_all(s: Seq<ReplicaView>, p: spec_fn(ReplicaView) -> bool)
    requires
        forall|k: int| 0 <= k < s.len() ==> p(s[k]),
    ensures
        keep(s, p) == s,
    decreases s.len(),
{
    if s.len() > 0 {
        assert(p(s[s.len() - 1]));
        assert forall|k: int| 0 <= k < s.len() - 1 implies p(s.drop_last()[k]) by {
            assert(s.drop_last()[k] == s[k]);
        }
        lemma_keep_all(s.drop_last(), p);
        assert(s.drop_last().push(s.last()) =~= s);
    }
}

/// Consistency level of a replicated read or write.
#[derive(Debug, Clone, Copy, PartialEq, Eq, Structural)]
pub enum ConsistencyLevel {
    /// Primary only.
    Strong,
    /// Any healthy replica for reads, the writable replicas for writes.
    Eventual,
    /// A majority.
    Quorum,
    /// Every replica.
    All,
}

/// Outcome of a replicated operation.
#[derive(Debug, Clone)]
pub struct ReplicationResult {
    pub successful: usize,
    pub failed: usize,
    pub successful_nodes: Vec<NodeId>,
    pub failed_nodes: Vec<NodeId>,
}

impl ReplicationResult {
    /// Whether at least `quorum_size` replicas succeeded.
    pub fn has_quorum(&self, quorum_size: usize) -> (res: bool)
        ensures
            res == (self.successful >= quorum_size),
    {
        self.successful >= quorum_size
    }

    /// Whether no replica failed.
    pub fn is_unanimous(&self) -> (res: bool)
        ensures
            res == (self.failed == 0),
    {
        self.failed == 0
    }
}

/// Summary of the health of every replication group.
#[derive(Debug, Clone, Copy, PartialEq, Eq, Structural)]
pub struct ReplicationHealthReport {
    pub total_groups: usize,
    pub healthy_groups: usize,
    pub groups_with_quorum: usize,
    pub under_replicated_groups: usize,
}

/// The replicas a write at `level` goes to.
pub open spec fn spec_write_targets(g: GroupView, level: ConsistencyLevel) -> Seq<ReplicaView> {
    match level {
        ConsistencyLevel::Strong => seq![g.primary],
        ConsistencyLevel::Eventual => keep(g.replicas(), |r: ReplicaView| writable(r)),
        ConsistencyLevel::Quorum => {
            let w = keep(g.replicas(), |r: ReplicaView| writable(r));
            if majority(g.replication_factor) <= w.len() { w.take(majority(g.replication_factor)) } else { w }
        },
        ConsistencyLevel::All => keep(g.replicas(), |r: ReplicaView| writable(r)),
    }
}

/// The replicas a read at `level` goes to.
pub open spec fn spec_read_targets(g: GroupView, level: ConsistencyLevel) -> Seq<ReplicaView> {
    let h = keep(g.replicas(), |r: ReplicaView| readable(r));
    match level {
        ConsistencyLevel::Strong => seq![g.primary],
        ConsistencyLevel::Eventual => if h.len() == 0 { h } else { h.take(1) },
        ConsistencyLevel::Quorum => if majority(g.replication_factor) <= h.len() { h.take(majority(g.replication_factor)) } else { h },
        ConsistencyLevel::All => h,
    }
}

impl ReplicationGroup {
    /// The replicas a write at `level` goes to: the primary for strong
    /// writes, the writable replicas otherwise, cut to a majority for
    /// quorum writes.
    pub fn write_targets(&self, level: ConsistencyLevel) -> (res: Vec<&ReplicaInfo>)
        ensures
            replica_ref_views(res@) == spec_write_targets(self@, level),
    {
        match level {
            ConsistencyLevel::Strong => {
                let mut v: Vec<&ReplicaInfo> = Vec::new();
                v.push(&self.primary);
                assert(replica_ref_views(v@) =~= seq![self@.primary]);
                v
            },
            ConsistencyLevel::Eventual => self.writable_replicas(),
            ConsistencyLevel::Quorum => {
                let mut v = self.writable_replicas();
                let q = self.quorum_size();
                let ghost before = v@;
                v.truncate(q);
                assert(replica_ref_views(v@) =~= spec_write_targets(self@, level));
                v
            },
            ConsistencyLevel::All => self.writable_replicas(),
        }
    }

    /// The replicas a read at `level` goes to: the primary for strong
    /// reads, the first readable replica for eventual reads, a majority of
    /// the readable replicas for quorum reads and all of them otherwise.
    pub fn read_targets(&self, level: ConsistencyLevel) -> (res: Vec<&ReplicaInfo>)
        ensures
            replica_ref_views(res@) == spec_read_targets(self@, level),
    {
        match level {
            ConsistencyLevel::Strong => {
                let mut v: Vec<&ReplicaInfo> = Vec::new();
                v.push(&self.primary);
                assert(replica_ref_views(v@) =~= seq![self@.primary]);
                v
            },
            ConsistencyLevel::Eventual => {
                let mut v = self.healthy_replicas();
                if v.len() > 0 {
                    v.truncate(1);
                }
                assert(replica_ref_views(v@) =~= spec_read_targets(self@, level));
                v
            },
            ConsistencyLevel::Quorum => {
                let mut v = self.healthy_replicas();
                let q = self.quorum_size();
                v.truncate(q);
                assert(replica_ref_views(v@) =~= spec_read_targets(self@, level));
                v
            },
            ConsistencyLevel::All => self.healthy_replicas(),
        }
    }
}

/// Whether a write at `level` with these counts met its consistency
/// requirement.
pub open spec fn write_accepted(level: ConsistencyLevel, quorum_size: usize, successful: usize, failed: usize) -> bool {
    match level {
        ConsistencyLevel::Strong => successful > 0,
        ConsistencyLevel::Quorum => successful >= quorum_size,
        ConsistencyLevel::All => failed == 0,
        ConsistencyLevel::Eventual => successful > 0,
    }
}

/// The error of a write at `level` that fell short with these counts.
pub open spec fn write_refusal(level: ConsistencyLevel, quorum_size: usize, successful: usize, failed: usize, e: ShardError) -> bool {
    match level {
        ConsistencyLevel::Strong => e matches ShardError::ReplicationFailed { reason } && reason@ == "Primary write failed"@,
        ConsistencyLevel::Quorum => e matches ShardError::QuorumNotAchieved { actual, required }
            && actual == successful && required == quorum_size,
        ConsistencyLevel::All => e matches ShardError::ReplicationFailed { reason }
            && reason@ == "Failed to write to all replicas: "@ + decimal(successful as nat) + "/"@
                + decimal((successful + failed) as nat),
        ConsistencyLevel::Eventual => e matches ShardError::ReplicationFailed { reason }
            && reason@ == "No replicas accepted the write"@,
    }
}

/// What each consistency level asks of a write: strong and eventual
/// writes one replica that took it, quorum writes `quorum_size` of them,
/// and writes to all replicas that none failed.
pub proof fn law_write_levels(quorum_size: usize, successful: usize, failed: usize)
    ensures
        write_accepted(ConsistencyLevel::All, quorum_size, successful, failed) <==> failed == 0,
        write_accepted(ConsistencyLevel::Strong, quorum_size, successful, failed) <==> successful > 0,
        write_accepted(ConsistencyLevel::Eventual, quorum_size, successful, failed) <==> successful > 0,
        write_accepted(ConsistencyLevel::Quorum, quorum_size, successful, failed) <==> successful >= quorum_size,
        failed > 0 ==> forall|e: ShardError| write_refusal(ConsistencyLevel::All, quorum_size, successful, failed, e) ==>
            (e matches ShardError::ReplicationFailed { reason }
            && reason@ == "Failed to write to all replicas: "@ + decimal(successful as nat) + "/"@
                + decimal((successful + failed) as nat)),
{
}

/// Checks the outcome of a replicated write against its consistency level:
/// strong and eventual writes need one success, quorum writes
/// `quorum_size`, and writes to all replicas no failure.
pub fn check_write_outcome(level: ConsistencyLevel, quorum_size: usize, result: ReplicationResult) -> (res: Result<ReplicationResult, ShardError>)
    requires
        result.successful + result.failed <= usize::MAX,
    ensures
        res is Ok <==> write_accepted(level, quorum_size, result.successful, result.failed),
        res matches Ok(r) ==> r.successful == result.successful && r.failed == result.failed
            && r.successful_nodes@ == result.successful_nodes@ && r.failed_nodes@ == result.failed_nodes@,
        res matches Err(e) ==> write_refusal(level, quorum_size, result.successful, result.failed, e),
        level == ConsistencyLevel::All ==> (res is Ok <==> result.failed == 0),
        level == ConsistencyLevel::Strong ==> (res is Ok <==> result.successful > 0),
        level == ConsistencyLevel::Eventual ==> (res is Ok <==> result.successful > 0),
        level == ConsistencyLevel::Quorum ==> (res is Ok <==> result.successful >= quorum_size),
        level == ConsistencyLevel::All && result.failed > 0 ==> (res matches Err(ShardError::ReplicationFailed { reason })
            && reason@ == "Failed to write to all replicas: "@ + decimal(result.successful as nat) + "/"@
                + decimal((result.successful + result.failed) as nat)),
{
    proof { law_write_levels(quorum_size, result.successful, result.failed); }
    match level {
        ConsistencyLevel::Strong => {
            if result.successful == 0 {
                return Err(ShardError::ReplicationFailed { reason: "Primary write failed".to_owned() });
            }
        },
        ConsistencyLevel::Quorum => {
            if !result.has_quorum(quorum_size) {
                return Err(ShardError::QuorumNotAchieved { actual: result.successful, required: quorum_size });
            }
        },
        ConsistencyLevel::All => {
            if !result.is_unanimous() {
                let a = concat_str("Failed to write to all replicas: ", u64_to_decimal(result.successful as u64).as_str());
                let b = concat_str(a.as_str(), "/");
                let total = result.successful + result.failed;
                let reason = concat_str(b.as_str(), u64_to_decimal(total as u64).as_str());
                return Err(ShardError::ReplicationFailed { reason });
            }
        },
        ConsistencyLevel::Eventual => {
            if result.successful == 0 {
                return Err(ShardError::ReplicationFailed { reason: "No replicas accepted the write".to_owned() });
            }
        },
    }
    Ok(result)
}

/// Number of times `x` occurs in `s`.
pub open spec fn occurrences(s: Seq<Vec<u8>>, x: Seq<u8>) -> nat
    decreases s.len(),
{
    if s.len() == 0 {
        0
    } else {
        occurrences(s.drop_last(), x) + if s.last()@ == x { 1nat } else { 0nat }
    }
}

/// Picks a most frequent value among the data read from replicas, with its
/// number of occurrences (the first such value on ties).
pub fn most_common_value(values: &Vec<Vec<u8>>) -> (res: (Vec<u8>, usize))
    requires
        values@.len() > 0,
    ensures
        exists|k: int| 0 <= k < values@.len() && values@[k]@ == res.0@,
        res.1 == occurrences(values@, res.0@),
        forall|k: int| 0 <= k < values@.len() ==> occurrences(values@, #[trigger] values@[k]@) <= res.1,
{
    let n = values.len();
    let mut best: usize = 0;
    let mut best_count: usize = count_occurrences(values, 0);
    let mut i: usize = 1;
    while i < n
        invariant
            n == values@.len(),
            1 <= i <= n,
            best < n,
            best_count == occurrences(values@, values@[best as int]@),
            forall|k: int| 0 <= k < i ==> occurrences(values@, #[trigger] values@[k]@) <= best_count,
        decreases n - i,
    {
        let c = count_occurrences(values, i);
        if c > best_count {
            best = i;
            best_count = c;
        }
        i = i + 1;
    }
    (values[best].clone(), best_count)
}

/// Number of entries of `values` equal to `values[i]`.
fn count_occurrences(values: &Vec<Vec<u8>>, i: usize) -> (res: usize)
    requires
        i < values@.len(),
    ensures
        res == occurrences(values@, values@[i as int]@),
{
    let n = values.len();
    let mut c: usize = 0;
    let mut j: usize = 0;
    while j < n
        invariant
            n == values@.len(),
            i < n,
            j <= n,
            c == occurrences(values@.take(j as int), values@[i as int]@),
            c <= j,
        decreases n - j,
    {
        proof {
            assert(values@.take(j as int + 1).drop_last() =~= values@.take(j as int));
        }
        if bytes_equal(&values[j], &values[i]) {
            c = c + 1;
        }
        j = j + 1;
    }
    proof {
        assert(values@.take(n as int) =~= values@);
    }
    c
}

/// Whether two byte vectors are equal.
pub fn bytes_equal(a: &Vec<u8>, b: &Vec<u8>) -> (res: bool)
    ensures
        res == (a@ == b@),
{
    if a.len() != b.len() {
        return false;
    }
    let mut i: usize = 0;
    while i < a.len()
        invariant
            a@.len() == b@.len(),
            i <= a@.len(),
            forall|k: int| 0 <= k < i ==> a@[k] == b@[k],
        decreases a@.len() - i,
    {
        if a[i] != b[i] {
            return false;
        }
        i = i + 1;
    }
    assert(a@ =~= b@);
    true
}

/// Whether a secondary on `node` may join group `g`.
pub open spec fn can_add_secondary(g: GroupView, node: Seq<char>) -> bool {
    &&& g.secondaries.len() < g.replication_factor - 1
    &&& g.primary.node != node
    &&& !(exists|k: int| 0 <= k < g.secondaries.len() && g.secondaries[k].node == node)
}

/// `after` is `before` with a new syncing secondary `id` on `node`.
pub open spec fn secondary_added(before: GroupView, after: GroupView, node: Seq<char>, id: u128) -> bool {
    &&& after.range == before.range
    &&& after.primary == before.primary
    &&& after.replication_factor == before.replication_factor
    &&& after.secondaries == before.secondaries.push(ReplicaView {
        id,
        node,
        status: ReplicaStatus::Syncing,
        lag_ms: 0,
        operations_applied: 0,
    })
}

/// The index of the group of `range`, if any.
pub open spec fn group_index(groups: Seq<GroupView>, range: (u64, u64)) -> int
    decreases groups.len(),
{
    if groups.len() == 0 {
        -1
    } else if groups.last().range == range {
        groups.len() - 1
    } else {
        group_index(groups.drop_last(), range)
    }
}

/// The text used for a hash range in messages: `"(start, end)"`.
pub open spec fn range_text(range: (u64, u64)) -> Seq<char> {
    "("@ + decimal(range.0 as nat) + ", "@ + decimal(range.1 as nat) + ")"@
}

/// Renders a hash range as `"(start, end)"`.
fn range_to_string(range: (u64, u64)) -> (res: String)
    ensures
        res@ == range_text(range),
{
    let a = concat_str("(", u64_to_decimal(range.0).as_str());
    let b = concat_str(a.as_str(), ", ");
    let c = concat_str(b.as_str(), u64_to_decimal(range.1).as_str());
    concat_str(c.as_str(), ")")
}

/// The health report of a list of groups.
pub open spec fn spec_health(groups: Seq<GroupView>) -> (int, int, int, int)
    decreases groups.len(),
{
    if groups.len() == 0 {
        (0, 0, 0, 0)
    } else {
        let (t, h, q, u) = spec_health(groups.drop_last());
        let g = groups.last();
        let healthy = keep(g.replicas(), |r: ReplicaView| readable(r)).len();
        let total = g.replicas().len();
        (
            t + 1,
            h + if healthy == total { 1int } else { 0int },
            q + if healthy >= majority(g.replication_factor) { 1int } else { 0int },
            u + if total < g.replication_factor { 1int } else { 0int },
        )
    }
}

/// The replication groups of the cluster, one per hash range.
pub struct ReplicationManager {
    replication_factor: usize,
    replication_groups: Vec<ReplicationGroup>,
}

impl View for ReplicationManager {
    type V = Seq<GroupView>;

    closed spec fn view(&self) -> Seq<GroupView> {
        self.replication_groups@.map_values(|g: ReplicationGroup| g@)
    }
}

impl ReplicationManager {
    /// The replication factor new groups get.
    pub closed spec fn spec_replication_factor(&self) -> usize {
        self.replication_factor
    }

    /// A manager without groups whose groups hold `replication_factor` replicas.
    pub fn new(replication_factor: usize) -> (res: ReplicationManager)
        ensures
            res@ == Seq::<GroupView>::empty(),
            res.spec_replication_factor() == replication_factor,
    {
        let res = ReplicationManager { replication_factor, replication_groups: Vec::new() };
        assert(res@ =~= Seq::<GroupView>::empty());
        res
    }

    /// Index of the group of `range`, if any.
    fn index_of(&self, range: (u64, u64)) -> (res: Option<usize>)
        ensures
            match res {
                Some(i) => i == group_index(self@, range) && 0 <= i < self@.len(),
                None => group_index(self@, range) == -1,
            },
    {
        let mut i: usize = self.replication_groups.len();
        assert(self@.take(i as int) =~= self@);
        while i > 0
            invariant
                i <= self@.len(),
                group_index(self@, range) == group_index(self@.take(i as int), range),
            decreases i,
        {
            proof {
                assert(self@.take(i as int).last() == self.replication_groups@[i - 1]@);
                assert(self@.take(i as int).drop_last() =~= self@.take(i - 1));
            }
            let r = self.replication_groups[i - 1].range;
            if r.0 == range.0 && r.1 == range.1 {
                return Some(i - 1);
            }
            i = i - 1;
        }
        None
    }

    /// Creates the group of `range` with its primary and secondaries.
    /// Refused when the range already has a group or when a secondary is
    /// refused by the group; nothing is stored then.
    pub fn create_replication_group(&mut self, range: (u64, u64), primary_node: NodeId, secondary_nodes: Vec<NodeId>) -> (res: Result<(), ShardError>)
        requires
            secondary_nodes@.len() > 0 ==> old(self).spec_replication_factor() >= 1,
        ensures
            final(self).spec_replication_factor() == old(self).spec_replication_factor(),
            group_index(old(self)@, range) != -1 ==> (res matches Err(ShardError::InvalidState { reason })
                && reason@ == "Replication group already exists for range "@ + range_text(range)),
            res is Err ==> final(self)@ == old(self)@,
            res is Ok ==> {
                &&& group_index(old(self)@, range) == -1
                &&& final(self)@.len() == old(self)@.len() + 1
                &&& final(self)@.drop_last() == old(self)@
                &&& final(self)@.last().range == range
                &&& final(self)@.last().primary.node == primary_node@
                &&& final(self)@.last().replication_factor == old(self).spec_replication_factor()
                &&& final(self)@.last().secondaries.map_values(|r: ReplicaView| r.node) == node_views_of(secondary_nodes@)
            },
    {
        if self.index_of(range).is_some() {
            let reason = concat_str("Replication group already exists for range ", range_to_string(range).as_str());
            return Err(ShardError::InvalidState { reason });
        }
        let mut group = ReplicationGroup::new(range, primary_node, self.replication_factor);
        let mut i: usize = 0;
        while i < secondary_nodes.len()
            invariant
                i <= secondary_nodes@.len(),
                secondary_nodes@.len() > 0 ==> group@.replication_factor >= 1,
                group@.range == range,
                group@.primary.node == primary_node@,
                group@.replication_factor == self.replication_factor,
                group@.secondaries.map_values(|r: ReplicaView| r.node) == node_views_of(secondary_nodes@.take(i as int)),
                self@ == old(self)@,
                self.replication_factor == old(self).spec_replication_factor(),
                group_index(old(self)@, range) == -1,
            decreases secondary_nodes@.len() - i,
        {
            let ghost before = group@;
            let r = group.add_secondary(secondary_nodes[i].clone());
            if r.is_err() {
                return Err(r.unwrap_err());
            }
            proof {
                assert(secondary_nodes@.take(i as int + 1) =~= secondary_nodes@.take(i as int).push(secondary_nodes@[i as int]));
                assert(group@.secondaries.map_values(|r: ReplicaView| r.node) =~= before.secondaries.map_values(|r: ReplicaView| r.node).push(secondary_nodes@[i as int]@));
            }
            i = i + 1;
        }
        proof {
            assert(secondary_nodes@.take(secondary_nodes@.len() as int) =~= secondary_nodes@);
        }
        let ghost before = self@;
        self.replication_groups.push(group);
        assert(self@ =~= before.push(group@));
        Ok(())
    }

    /// A copy of the group of `range`, if any.
    pub fn get_replication_group(&self, range: &(u64, u64)) -> (res: Option<ReplicationGroup>)
        ensures
            match res {
                Some(g) => group_index(self@, *range) != -1 && g@ == self@[group_index(self@, *range)],
                None => group_index(self@, *range) == -1,
            },
    {
        match self.index_of(*range) {
            Some(i) => Some(self.replication_groups[i].clone()),
            None => None,
        }
    }

    /// A copy of the first group whose range contains `hash`, if any.
    pub fn find_replication_group(&self, hash: u64) -> (res: Option<ReplicationGroup>)
        ensures
            match res {
                Some(g) => exists|i: int| 0 <= i < self@.len() && g@ == self@[i]
                    && covers(self@[i], hash)
                    && forall|j: int| 0 <= j < i ==> !covers(#[trigger] self@[j], hash),
                None => forall|i: int| 0 <= i < self@.len() ==> !covers(#[trigger] self@[i], hash),
            },
    {
        let mut i: usize = 0;
        while i < self.replication_groups.len()
            invariant
                i <= self@.len(),
                forall|j: int| 0 <= j < i ==> !covers(#[trigger] self@[j], hash),
            decreases self@.len() - i,
        {
            let g = &self.replication_groups[i];
            assert(self@[i as int] == g@);
            if hash >= g.range.0 && hash <= g.range.1 {
                return Some(g.clone());
            }
            i = i + 1;
        }
        None
    }

    /// Adds a secondary on `node_id` to the group of `range`.
    pub fn add_replica(&mut self, range: (u64, u64), node_id: NodeId) -> (res: Result<ReplicaId, ShardError>)
        requires
            forall|i: int| 0 <= i < old(self)@.len() ==> old(self)@[i].replication_factor >= 1,
        ensures
            final(self).spec_replication_factor() == old(self).spec_replication_factor(),
            group_index(old(self)@, range) == -1 ==> (res matches Err(ShardError::InvalidState { reason })
                && reason@ == "No replication group found for range "@ + range_text(range)),
            res is Err ==> final(self)@ == old(self)@,
            res is Ok <==> group_index(old(self)@, range) != -1 && can_add_secondary(old(self)@[group_index(old(self)@, range)], node_id@),
            res matches Ok(id) ==> {
                let i = group_index(old(self)@, range);
                &&& final(self)@.len() == old(self)@.len()
                &&& forall|j: int| 0 <= j < old(self)@.len() && j != i ==> final(self)@[j] == old(self)@[j]
                &&& secondary_added(old(self)@[i], final(self)@[i], node_id@, id@)
            },
    {
        match self.index_of(range) {
            None => {
                let reason = concat_str("No replication group found for range ", range_to_string(range).as_str());
                Err(ShardError::InvalidState { reason })
            },
            Some(i) => {
                let ghost before = self@;
                let mut group = self.replication_groups.remove(i);
                assert(group@ == before[i as int]);
                let ghost g0 = group@;
                let r = group.add_secondary(node_id);
                self.replication_groups.insert(i, group);
                proof {
                    assert(self@ =~= before.update(i as int, group@));
                    if r is Err {
                        assert(self@ =~= before);
                    } else {
                        assert(group@.secondaries =~= g0.secondaries.push(group@.secondaries.last()));
                    }
                }
                r
            },
        }
    }

    /// Removes the secondary `replica_id` from the group of `range`.
    pub fn remove_replica(&mut self, range: (u64, u64), replica_id: &ReplicaId) -> (res: Result<(), ShardError>)
        ensures
            final(self).spec_replication_factor() == old(self).spec_replication_factor(),
            group_index(old(self)@, range) == -1 ==> (res matches Err(ShardError::InvalidState { reason })
                && reason@ == "No replication group found for range "@ + range_text(range)) && final(self)@ == old(self)@,
            group_index(old(self)@, range) != -1 ==> {
                let i = group_index(old(self)@, range);
                &&& final(self)@.len() == old(self)@.len()
                &&& forall|j: int| 0 <= j < old(self)@.len() && j != i ==> final(self)@[j] == old(self)@[j]
                &&& final(self)@[i] == (GroupView {
                    secondaries: keep(old(self)@[i].secondaries, id_differs(replica_id@)),
                    ..old(self)@[i]
                })
                &&& (res is Ok <==> exists|k: int| 0 <= k < old(self)@[i].secondaries.len()
                    && old(self)@[i].secondaries[k].id == replica_id@)
                &&& (res matches Err(e) ==> (e matches ShardError::ReplicaNotFound { replica_id: t } && t@ == uuid_text(replica_id@)))
            },
    {
        match self.index_of(range) {
            None => {
                let reason = concat_str("No replication group found for range ", range_to_string(range).as_str());
                Err(ShardError::InvalidState { reason })
            },
            Some(i) => {
                let ghost before = self@;
                let mut group = self.replication_groups.remove(i);
                assert(group@ == before[i as int]);
                let r = group.remove_secondary(replica_id);
                self.replication_groups.insert(i, group);
                assert(self@ =~= before.update(i as int, group@));
                r
            },
        }
    }

    /// Promotes the secondary `replica_id` of the group of `range`.
    pub fn promote_replica(&mut self, range: (u64, u64), replica_id: &ReplicaId) -> (res: Result<(), ShardError>)
        ensures
            final(self).spec_replication_factor() == old(self).spec_replication_factor(),
            group_index(old(self)@, range) == -1 ==> (res matches Err(ShardError::InvalidState { reason })
                && reason@ == "No replication group found for range "@ + range_text(range)) && final(self)@ == old(self)@,
            group_index(old(self)@, range) != -1 ==> {
                let i = group_index(old(self)@, range);
                let g = old(self)@[i];
                &&& final(self)@.len() == old(self)@.len()
                &&& forall|j: int| 0 <= j < old(self)@.len() && j != i ==> final(self)@[j] == old(self)@[j]
                &&& (res is Ok <==> exists|k: int| 0 <= k < g.secondaries.len() && g.secondaries[k].id == replica_id@)
                &&& (res is Err ==> final(self)@[i] == g)
                &&& (res is Ok ==> exists|k: int| #![trigger g.secondaries[k]] {
                    &&& 0 <= k < g.secondaries.len()
                    &&& g.secondaries[k].id == replica_id@
                    &&& forall|j: int| 0 <= j < k ==> g.secondaries[j].id != replica_id@
                    &&& final(self)@[i].primary == g.secondaries[k]
                    &&& final(self)@[i].secondaries == g.secondaries.remove(k).push(g.primary)
                    &&& final(self)@[i].range == g.range
                    &&& final(self)@[i].replication_factor == g.replication_factor
                })
            },
    {
        match self.index_of(range) {
            None => {
                let reason = concat_str("No replication group found for range ", range_to_string(range).as_str());
                Err(ShardError::InvalidState { reason })
            },
            Some(i) => {
                let ghost before = self@;
                let mut group = self.replication_groups.remove(i);
                assert(group@ == before[i as int]);
                let r = group.promote_secondary(replica_id);
                self.replication_groups.insert(i, group);
                assert(self@ =~= before.update(i as int, group@));
                r
            },
        }
    }

    /// Counts the groups, the fully healthy ones, those with a readable
    /// majority and those holding fewer replicas than their factor.
    pub fn check_replication_health(&self) -> (res: ReplicationHealthReport)
        ensures
            (res.total_groups as int, res.healthy_groups as int, res.groups_with_quorum as int,
                res.under_replicated_groups as int) == spec_health(self@),
    {
        let mut total_groups: usize = 0;
        let mut healthy_groups: usize = 0;
        let mut groups_with_quorum: usize = 0;
        let mut under_replicated_groups: usize = 0;
        let mut i: usize = 0;
        while i < self.replication_groups.len()
            invariant
                i <= self@.len(),
                (total_groups as int, healthy_groups as int, groups_with_quorum as int,
                    under_replicated_groups as int) == spec_health(self@.take(i as int)),
                total_groups == i,
                healthy_groups <= i,
                groups_with_quorum <= i,
                under_replicated_groups <= i,
            decreases self@.len() - i,
        {
            let group = &self.replication_groups[i];
            proof {
                assert(self@.take(i as int + 1).drop_last() =~= self@.take(i as int));
                assert(self@.take(i as int + 1).last() == group@);
            }
            total_groups = total_groups + 1;
            let healthy_replicas = group.healthy_replicas().len();
            let total_replicas = group.all_replicas().len();
            if healthy_replicas == total_replicas {
                healthy_groups = healthy_groups + 1;
            }
            if group.has_quorum() {
                groups_with_quorum = groups_with_quorum + 1;
            }
            if total_replicas < group.replication_factor {
                under_replicated_groups = under_replicated_groups + 1;
            }
            i = i + 1;
        }
        proof {
            assert(self@.take(self@.len() as int) =~= self@);
        }
        ReplicationHealthReport { total_groups, healthy_groups, groups_with_quorum, under_replicated_groups }
    }
}

/// Whether the range of group `g` contains `hash` (both ends included).
pub open spec fn covers(g: GroupView, hash: u64) -> bool {
    g.range.0 <= hash <= g.range.1
}

/// The views of a sequence of node identifiers.
pub open spec fn node_views_of(v: Seq<NodeId>) -> Seq<Seq<char>> {
    v.map_values(|n: NodeId| n@)
}

/// The group of the first range that contains `hash`, if any.
pub open spec fn group_for_hash(groups: Seq<GroupView>, hash: u64) -> Option<GroupView> {
    if exists|i: int| 0 <= i < groups.len() && covers(#[trigger] groups[i], hash) {
        Some(groups[choose|i: int| 0 <= i < groups.len() && covers(#[trigger] groups[i], hash)
            && forall|j: int| 0 <= j < i ==> !covers(#[trigger] groups[j], hash)])
    } else {
        None
    }
}

proof fn lemma_group_for_hash(groups: Seq<GroupView>, hash: u64, i: int)
    requires
        0 <= i < groups.len(),
        covers(groups[i], hash),
        forall|j: int| 0 <= j < i ==> !covers(#[trigger] groups[j], hash),
    ensures
        group_for_hash(groups, hash) == Some(groups[i]),
{
    let k = choose|k: int| 0 <= k < groups.len() && covers(#[trigger] groups[k], hash)
        && forall|j: int| 0 <= j < k ==> !covers(#[trigger] groups[j], hash);
    if k < i {
        assert(!covers(groups[k], hash));
    }
    if i < k {
        assert(!covers(groups[i], hash));
    }
}

/// The nodes of the targets whose outcome in `oks` is `want`, in order.
pub open spec fn nodes_with(targets: Seq<ReplicaView>, oks: Seq<bool>, want: bool) -> Seq<Seq<char>>
    decreases targets.len(),
{
    if targets.len() == 0 || oks.len() == 0 {
        Seq::empty()
    } else {
        let prev = nodes_with(targets.drop_last(), oks.drop_last(), want);
        if oks.last() == want { prev.push(targets.last().node) } else { prev }
    }
}

/// `r` counts and lists, in order, the targets that succeeded and failed
/// by the outcomes `oks`.
pub open spec fn tallies(targets: Seq<ReplicaView>, oks: Seq<bool>, r: ReplicationResult) -> bool {
    &&& oks.len() == targets.len()
    &&& node_views_of(r.successful_nodes@) == nodes_with(targets, oks, true)
    &&& node_views_of(r.failed_nodes@) == nodes_with(targets, oks, false)
    &&& r.successful == nodes_with(targets, oks, true).len()
    &&& r.failed == nodes_with(targets, oks, false).len()
}

proof fn lemma_nodes_with_len(targets: Seq<ReplicaView>, oks: Seq<bool>)
    requires
        oks.len() == targets.len(),
    ensures
        nodes_with(targets, oks, true).len() + nodes_with(targets, oks, false).len() == targets.len(),
    decreases targets.len(),
{
    if targets.len() > 0 {
        lemma_nodes_with_len(targets.drop_last(), oks.drop_last());
    }
}

/// Whether a replica took a write: true nineteen times in twenty, as the
/// stand-in for the network call.
fn replica_accepts_write() -> (res: bool) {
    random_index(100) < 95
}

/// What a replica answers a read with: the stand-in data nineteen times in
/// twenty, nothing otherwise.
fn read_from_replica() -> (res: Option<Vec<u8>>)
    ensures
        res matches Some(d) ==> d@ == encode_utf8("dummy_data"@),
{
    if random_index(100) < 95 {
        let s = "dummy_data";
        Some(crate::program_types::bytes_to_vec(s.as_bytes()))
    } else {
        None
    }
}

/// Sends the operation to each target in turn and counts the outcomes.
/// The reads' data, where `reading`, is collected in order.
fn send_to_replicas(targets: &Vec<&ReplicaInfo>, reading: bool) -> (res: (ReplicationResult, Vec<Vec<u8>>))
    ensures
        exists|oks: Seq<bool>| tallies(replica_ref_views(targets@), oks, res.0),
        reading ==> res.1@.len() == res.0.successful,
        forall|k: int| 0 <= k < res.1@.len() ==> (#[trigger] res.1@[k])@ == encode_utf8("dummy_data"@),
        res.0.successful + res.0.failed == targets@.len(),
{
    let mut successful: usize = 0;
    let mut failed: usize = 0;
    let mut successful_nodes: Vec<NodeId> = Vec::new();
    let mut failed_nodes: Vec<NodeId> = Vec::new();
    let mut values: Vec<Vec<u8>> = Vec::new();
    let ghost mut oks: Seq<bool> = Seq::empty();
    let mut i: usize = 0;
    while i < targets.len()
        invariant
            i <= targets@.len(),
            oks.len() == i,
            node_views_of(successful_nodes@) == nodes_with(replica_ref_views(targets@).take(i as int), oks, true),
            node_views_of(failed_nodes@) == nodes_with(replica_ref_views(targets@).take(i as int), oks, false),
            successful == successful_nodes@.len(),
            failed == failed_nodes@.len(),
            successful + failed == i,
            reading ==> values@.len() == successful,
            forall|k: int| 0 <= k < values@.len() ==> (#[trigger] values@[k])@ == encode_utf8("dummy_data"@),
        decreases targets@.len() - i,
    {
        let node = targets[i].node_id.clone();
        let ghost t = replica_ref_views(targets@).take(i as int + 1);
        proof {
            assert(t.drop_last() =~= replica_ref_views(targets@).take(i as int));
            assert(t.last() == targets@[i as int]@);
        }
        let ok = if reading {
            match read_from_replica() {
                Some(d) => {
                    values.push(d);
                    true
                },
                None => false,
            }
        } else {
            replica_accepts_write()
        };
        proof {
            assert((oks.push(ok)).drop_last() =~= oks);
            oks = oks.push(ok);
        }
        let ghost before_ok = successful_nodes@;
        let ghost before_bad = failed_nodes@;
        if ok {
            successful = successful + 1;
            successful_nodes.push(node);
            proof {
                assert(node_views_of(successful_nodes@) =~= node_views_of(before_ok).push(targets@[i as int]@.node));
            }
        } else {
            failed = failed + 1;
            failed_nodes.push(node);
            proof {
                assert(node_views_of(failed_nodes@) =~= node_views_of(before_bad).push(targets@[i as int]@.node));
            }
        }
        i = i + 1;
    }
    proof {
        assert(replica_ref_views(targets@).take(targets@.len() as int) =~= replica_ref_views(targets@));
        assert(node_views_of(successful_nodes@).len() == successful_nodes@.len());
        assert(node_views_of(failed_nodes@).len() == failed_nodes@.len());
    }
    let res = ReplicationResult { successful, failed, successful_nodes, failed_nodes };
    let out = (res, values);
    assert(tallies(replica_ref_views(targets@), oks, out.0));
    out
}

impl ReplicationManager {
    /// The group of the key: the first whose range holds the key's default
    /// hash.
    fn group_for_key(&self, key: &str) -> (res: Result<ReplicationGroup, ShardError>)
        ensures
            match group_for_hash(self@, default_hash(key@)) {
                None => res matches Err(ShardError::InvalidState { reason })
                    && reason@ == "No replication group found for key: "@ + key@,
                Some(g) => res matches Ok(found) && found@ == g,
            },
    {
        let h = hash_text(key);
        match self.find_replication_group(h) {
            Some(g) => {
                proof {
                    let i = choose|i: int| 0 <= i < self@.len() && g@ == self@[i] && covers(self@[i], h)
                        && forall|j: int| 0 <= j < i ==> !covers(#[trigger] self@[j], h);
                    lemma_group_for_hash(self@, h, i);
                }
                Ok(g)
            },
            None => {
                let reason = concat_str("No replication group found for key: ", key);
                Err(ShardError::InvalidState { reason })
            },
        }
    }

    /// Writes to the replicas the level calls for in the key's group and
    /// checks the outcome against the level. Which replicas take the write
    /// is left to the replicas.
    pub fn replicated_write(&self, key: &str, data: &[u8], level: ConsistencyLevel) -> (res: Result<ReplicationResult, ShardError>)
        ensures
            match group_for_hash(self@, default_hash(key@)) {
                None => res matches Err(ShardError::InvalidState { reason })
                    && reason@ == "No replication group found for key: "@ + key@,
                Some(g) => exists|oks: Seq<bool>, r: ReplicationResult| {
                    &&& tallies(spec_write_targets(g, level), oks, r)
                    &&& res is Ok <==> write_accepted(level, majority(g.replication_factor) as usize, r.successful, r.failed)
                    &&& res matches Ok(o) ==> tallies(spec_write_targets(g, level), oks, o)
                    &&& res matches Err(e) ==> write_refusal(level, majority(g.replication_factor) as usize, r.successful, r.failed, e)
                },
            },
    {
        let group = self.group_for_key(key)?;
        let targets = group.write_targets(level);
        let _n = targets.len();
        let (result, _) = send_to_replicas(&targets, false);
        let q = group.quorum_size();
        check_write_outcome(level, q, result)
    }

    /// Reads from the replicas the level calls for in the key's group and
    /// gives the most common data among the answers, with the tally.
    pub fn replicated_read(&self, key: &str, level: ConsistencyLevel) -> (res: Result<(Vec<u8>, ReplicationResult), ShardError>)
        ensures
            match group_for_hash(self@, default_hash(key@)) {
                None => res matches Err(ShardError::InvalidState { reason })
                    && reason@ == "No replication group found for key: "@ + key@,
                Some(g) => if spec_read_targets(g, level).len() == 0 {
                    res matches Err(ShardError::ReplicationFailed { reason })
                        && reason@ == "No healthy replicas available for read"@
                } else {
                    exists|oks: Seq<bool>, r: ReplicationResult| {
                        &&& tallies(spec_read_targets(g, level), oks, r)
                        &&& r.successful == 0 ==> (res matches Err(ShardError::ReplicationFailed { reason })
                            && reason@ == "No replicas returned data"@)
                        &&& r.successful > 0 ==> (res matches Ok(p) && p.1 == r
                            && p.0@ == encode_utf8("dummy_data"@))
                    }
                },
            },
    {
        let group = self.group_for_key(key)?;
        let targets = group.read_targets(level);
        if targets.len() == 0 {
            let r = "No healthy replicas available for read";
            proof {
                reveal_strlit("No healthy replicas available for read");
            }
            return Err(ShardError::ReplicationFailed { reason: r.to_owned() });
        }
        let (result, values) = send_to_replicas(&targets, true);
        if result.successful == 0 {
            let r = "No replicas returned data";
            proof {
                reveal_strlit("No replicas returned data");
            }
            return Err(ShardError::ReplicationFailed { reason: r.to_owned() });
        }
        let (data, _count) = most_common_value(&values);
        Ok((data, result))
    }
}

} // verus!

//! Counters of the sharding layer: node operations, migrations,
//! replication, errors by kind, and a bounded history of cluster
//! statistics. Counters wrap around on overflow, as an atomic `fetch_add`
//! does; the recent migration durations, errors and cluster statistics are
//! kept in bounded windows that drop their oldest entry.

use vstd::prelude::*;
use std::time::{Duration, SystemTime};
use crate::clock::{duration_as_millis, duration_from_millis, millis_duration, secs_duration, system_now};
use crate::net_metrics::bump;
use crate::text::same_str;

verus! {

/// The most migration durations kept.
pub const MAX_DURATIONS: usize = 1000;

/// The most recent errors kept.
pub const MAX_ERRORS: usize = 1000;

/// The most cluster statistics kept.
pub const MAX_HISTORY: usize = 100;

/// Statistics of the cluster as the shard manager computes them.
#[derive(Debug, Clone, Copy, PartialEq, Eq, Structural)]
pub struct ClusterStats {
    pub total_nodes: usize,
    pub healthy_nodes: usize,
    pub degraded_nodes: usize,
    pub failed_nodes: usize,
    pub virtual_nodes: usize,
    pub replication_factor: usize,
    pub is_balanced: bool,
}

/// Node operation counters at one moment.
#[derive(Debug, Clone, Copy, PartialEq, Eq, Structural)]
pub struct NodeOperationsSnapshot {
    pub nodes_added: u64,
    pub nodes_removed: u64,
    pub rebalances_triggered: u64,
}

/// Migration counters at one moment, with the mean duration of the recent
/// migrations.
#[derive(Debug, Clone, Copy)]
pub struct MigrationSnapshot {
    pub migrations_started: u64,
    pub migrations_completed: u64,
    pub migrations_failed: u64,
    pub active_migrations: usize,
    pub keys_migrated: u64,
    pub bytes_migrated: u64,
    pub average_duration: Duration,
}

/// Replication counters at one moment. The success rates are held in
/// thousandths of the replicas asked.
#[derive(Debug, Clone, Copy, PartialEq, Eq, Structural)]
pub struct ReplicationSnapshot {
    pub write_operations: u64,
    pub read_operations: u64,
    pub write_success_permille: u64,
    pub read_success_permille: u64,
    pub quorum_failures: u64,
}

/// An error of a given kind, when it was recorded.
#[derive(Debug)]
pub struct ErrorEvent {
    pub error_type: String,
    pub timestamp: SystemTime,
}

/// Errors by kind at one moment, with the recent ones.
#[derive(Debug)]
pub struct ErrorSnapshot {
    pub error_counts: Vec<(String, u64)>,
    pub total_errors: u64,
    pub recent_errors: Vec<ErrorEvent>,
}

/// Cluster statistics recorded at a time, in milliseconds of the caller's
/// clock.
#[derive(Debug, Clone, Copy, PartialEq, Eq, Structural)]
pub struct ClusterStatsEntry {
    pub timestamp_ms: u64,
    pub stats: ClusterStats,
}

/// The latest cluster statistics with their recent history.
#[derive(Debug)]
pub struct ClusterSnapshot {
    pub current_stats: Option<ClusterStats>,
    pub stats_history: Vec<ClusterStatsEntry>,
    pub last_update_ms: Option<u64>,
}

/// Every counter at one moment.
#[derive(Debug)]
pub struct MetricsSnapshot {
    pub timestamp: SystemTime,
    pub node_operations: NodeOperationsSnapshot,
    pub migration: MigrationSnapshot,
    pub replication: ReplicationSnapshot,
    pub errors: ErrorSnapshot,
    pub cluster: ClusterSnapshot,
}

/// Migration counters.
#[derive(Debug, Clone, Copy, PartialEq, Eq, Structural)]
pub struct MigrationCounters {
    pub migrations_started: u64,
    pub migrations_completed: u64,
    pub migrations_failed: u64,
    pub active_migrations: usize,
    pub keys_migrated: u64,
    pub bytes_migrated: u64,
}

/// Replication counters.
#[derive(Debug, Clone, Copy, PartialEq, Eq, Structural)]
pub struct ReplicationCounters {
    pub write_operations: u64,
    pub read_operations: u64,
    pub total_write_replicas: u64,
    pub successful_write_replicas: u64,
    pub total_read_replicas: u64,
    pub successful_read_replicas: u64,
    pub quorum_failures: u64,
}

/// `s` with `x` appended, then its oldest element dropped when it holds
/// more than `max`.
pub open spec fn windowed<A>(s: Seq<A>, x: A, max: nat) -> Seq<A> {
    if s.push(x).len() > max { s.push(x).drop_first() } else { s.push(x) }
}

/// The kinds of the error events, in order.
pub open spec fn event_kinds(s: Seq<ErrorEvent>) -> Seq<Seq<char>> {
    s.map_values(|e: ErrorEvent| e.error_type@)
}

/// Position of the pair counting `kind`.
fn find_kind(counts: &Vec<(String, u64)>, kind: &str) -> (res: Option<usize>)
    ensures
        match res {
            Some(i) => i < counts@.len() && counts@[i as int].0@ == kind@,
            None => forall|j: int| 0 <= j < counts@.len() ==> counts@[j].0@ != kind@,
        },
{
    let mut i: usize = 0;
    while i < counts.len()
        invariant
            i <= counts@.len(),
            forall|j: int| 0 <= j < i ==> counts@[j].0@ != kind@,
        decreases counts@.len() - i,
    {
        if same_str(counts[i].0.as_str(), kind) {
            return Some(i);
        }
        i = i + 1;
    }
    None
}

/// Sum of the values.
pub open spec fn total_of(s: Seq<u64>) -> int
    decreases s.len(),
{
    if s.len() == 0 { 0 } else { total_of(s.drop_last()) + s.last() }
}

/// Sum of the counts of `(kind, count)` pairs.
pub open spec fn count_total(s: Seq<(String, u64)>) -> int
    decreases s.len(),
{
    if s.len() == 0 { 0 } else { count_total(s.drop_last()) + s.last().1 }
}

/// Each kind appears once.
pub open spec fn distinct_kinds(s: Seq<(String, u64)>) -> bool {
    forall|i: int, j: int| 0 <= i < j < s.len() ==> s[i].0@ != s[j].0@
}

/// `new` is `old` with one more error of `kind` counted at position `k`:
/// the pair that was there, or a new pair put at the end.
pub open spec fn kind_counted(old: Seq<(String, u64)>, new: Seq<(String, u64)>, kind: Seq<char>, k: int) -> bool {
    &&& 0 <= k < new.len()
    &&& new[k].0@ == kind
    &&& k < old.len() ==> old[k].0@ == kind && new.len() == old.len() && new[k].1 == bump(old[k].1, 1)
    &&& k == old.len() ==> new.len() == old.len() + 1 && new[k].1 == 1
        && forall|i: int| 0 <= i < old.len() ==> old[i].0@ != kind
    &&& k <= old.len()
    &&& forall|i: int| 0 <= i < old.len() && i != k ==> (#[trigger] new[i]).0@ == old[i].0@ && new[i].1 == old[i].1
    &&& distinct_kinds(new)
}

/// Thousandths of `total` that `ok` makes up, zero for no total.
pub open spec fn rate_permille(ok: u64, total: u64) -> u64 {
    if total > 0 { ((ok as int) * 1000 / (total as int)) as u64 } else { 0 }
}

fn rate_of(ok: u64, total: u64) -> (res: u64)
    ensures
        res == rate_permille(ok, total),
{
    if total > 0 {
        proof {
            assert((ok as int) * 1000 / (total as int) <= (ok as int) * 1000) by (nonlinear_arith)
                requires total > 0, ok >= 0;
            assert((ok as int) * 1000 <= u64::MAX * 1000) by (nonlinear_arith)
                requires ok <= u64::MAX;
        }
        ((ok as u128 * 1000) / total as u128) as u64
    } else {
        0
    }
}

/// The mean of the durations in milliseconds, rounded down; zero for none.
pub open spec fn mean_millis(s: Seq<u64>) -> u64 {
    if s.len() == 0 { 0 } else { (total_of(s) / (s.len() as int)) as u64 }
}

proof fn lemma_total_bound(s: Seq<u64>)
    ensures
        0 <= total_of(s) <= s.len() * u64::MAX,
    decreases s.len(),
{
    if s.len() > 0 {
        lemma_total_bound(s.drop_last());
    }
}

fn mean_of(v: &Vec<u64>) -> (res: u64)
    ensures
        res == mean_millis(v@),
{
    let mut sum: u128 = 0;
    let mut i: usize = 0;
    while i < v.len()
        invariant
            i <= v@.len(),
            sum == total_of(v@.take(i as int)),
            sum <= i * u64::MAX,
        decreases v@.len() - i,
    {
        assert(v@.take(i + 1).drop_last() =~= v@.take(i as int));
        proof {
            assert(sum + v@[i as int] <= (i + 1) * u64::MAX) by (nonlinear_arith)
                requires sum <= i * u64::MAX, v@[i as int] <= u64::MAX;
            assert((i + 1) * u64::MAX <= u128::MAX) by (nonlinear_arith)
                requires i < usize::MAX;
        }
        sum = sum + v[i] as u128;
        i = i + 1;
    }
    assert(v@.take(v@.len() as int) =~= v@);
    if v.len() == 0 {
        0
    } else {
        proof {
            assert((sum as int) / (v@.len() as int) <= u64::MAX) by (nonlinear_arith)
                requires sum <= v@.len() * u64::MAX, v@.len() > 0;
        }
        (sum / v.len() as u128) as u64
    }
}

/// Counters of the sharding layer.
#[derive(Debug)]
pub struct ShardMetrics {
    node_ops: NodeOperationsSnapshot,
    migration: MigrationCounters,
    migration_durations_ms: Vec<u64>,
    replication: ReplicationCounters,
    error_counts: Vec<(String, u64)>,
    last_errors: Vec<ErrorEvent>,
    stats_history: Vec<ClusterStatsEntry>,
    last_update_ms: Option<u64>,
    collection_interval: Duration,
}

impl ShardMetrics {
    pub closed spec fn spec_node_ops(&self) -> NodeOperationsSnapshot {
        self.node_ops
    }

    pub closed spec fn spec_migration(&self) -> MigrationCounters {
        self.migration
    }

    /// The recent migration durations, in milliseconds, oldest first.
    pub closed spec fn spec_durations(&self) -> Seq<u64> {
        self.migration_durations_ms@
    }

    pub closed spec fn spec_replication(&self) -> ReplicationCounters {
        self.replication
    }

    /// The error counts by kind.
    pub closed spec fn spec_error_counts(&self) -> Seq<(String, u64)> {
        self.error_counts@
    }

    /// The kinds of the recent errors, oldest first.
    pub closed spec fn spec_recent_kinds(&self) -> Seq<Seq<char>> {
        event_kinds(self.last_errors@)
    }

    /// The recorded cluster statistics, oldest first.
    pub closed spec fn spec_history(&self) -> Seq<ClusterStatsEntry> {
        self.stats_history@
    }

    pub closed spec fn spec_last_update(&self) -> Option<u64> {
        self.last_update_ms
    }

    pub closed spec fn spec_interval(&self) -> Duration {
        self.collection_interval
    }

    /// The windows hold at most their bounds and each error kind is
    /// counted once.
    pub open spec fn wf(&self) -> bool {
        &&& self.spec_durations().len() <= MAX_DURATIONS
        &&& self.spec_recent_kinds().len() <= MAX_ERRORS
        &&& self.spec_history().len() <= MAX_HISTORY
        &&& distinct_kinds(self.spec_error_counts())
    }

    /// Everything at zero and empty.
    pub open spec fn is_zeroed(&self) -> bool {
        &&& self.wf()
        &&& self.spec_node_ops() == (NodeOperationsSnapshot { nodes_added: 0, nodes_removed: 0, rebalances_triggered: 0 })
        &&& self.spec_migration() == (MigrationCounters {
                migrations_started: 0,
                migrations_completed: 0,
                migrations_failed: 0,
                active_migrations: 0,
                keys_migrated: 0,
                bytes_migrated: 0,
            })
        &&& self.spec_durations().len() == 0
        &&& self.spec_replication() == (ReplicationCounters {
                write_operations: 0,
                read_operations: 0,
                total_write_replicas: 0,
                successful_write_replicas: 0,
                total_read_replicas: 0,
                successful_read_replicas: 0,
                quorum_failures: 0,
            })
        &&& self.spec_error_counts().len() == 0
        &&& self.spec_recent_kinds().len() == 0
        &&& self.spec_history().len() == 0
        &&& self.spec_last_update() is None
    }

    /// Zeroed counters collected every `collection_interval`.
    pub fn new(collection_interval: Duration) -> (res: Self)
        ensures
            res.is_zeroed(),
            res.spec_interval() == collection_interval,
    {
        let res = ShardMetrics {
            node_ops: NodeOperationsSnapshot { nodes_added: 0, nodes_removed: 0, rebalances_triggered: 0 },
            migration: MigrationCounters {
                migrations_started: 0,
                migrations_completed: 0,
                migrations_failed: 0,
                active_migrations: 0,
                keys_migrated: 0,
                bytes_migrated: 0,
            },
            migration_durations_ms: Vec::new(),
            replication: ReplicationCounters {
                write_operations: 0,
                read_operations: 0,
                total_write_replicas: 0,
                successful_write_replicas: 0,
                total_read_replicas: 0,
                successful_read_replicas: 0,
                quorum_failures: 0,
            },
            error_counts: Vec::new(),
            last_errors: Vec::new(),
            stats_history: Vec::new(),
            last_update_ms: None,
            collection_interval,
        };
        assert(res.spec_recent_kinds() =~= Seq::<Seq<char>>::empty());
        res
    }

    /// Everything but the node operation counters is unchanged.
    pub open spec fn same_but_node_ops(&self, other: &Self) -> bool {
        &&& self.spec_migration() == other.spec_migration()
        &&& self.spec_durations() == other.spec_durations()
        &&& self.spec_replication() == other.spec_replication()
        &&& self.spec_error_counts() == other.spec_error_counts()
        &&& self.spec_recent_kinds() == other.spec_recent_kinds()
        &&& self.spec_history() == other.spec_history()
        &&& self.spec_last_update() == other.spec_last_update()
        &&& self.spec_interval() == other.spec_interval()
    }

    /// Counts a node added to the cluster.
    pub fn record_node_added(&mut self)
        requires
            old(self).wf(),
        ensures
            final(self).wf(),
            final(self).spec_node_ops() == (NodeOperationsSnapshot {
                nodes_added: bump(old(self).spec_node_ops().nodes_added, 1),
                ..old(self).spec_node_ops()
            }),
            final(self).same_but_node_ops(old(self)),
    {
        self.node_ops.nodes_added = self.node_ops.nodes_added.wrapping_add(1);
    }

    /// Counts a node removed from the cluster.
    pub fn record_node_removed(&mut self)
        requires
            old(self).wf(),
        ensures
            final(self).wf(),
            final(self).spec_node_ops() == (NodeOperationsSnapshot {
                nodes_removed: bump(old(self).spec_node_ops().nodes_removed, 1),
                ..old(self).spec_node_ops()
            }),
            final(self).same_but_node_ops(old(self)),
    {
        self.node_ops.nodes_removed = self.node_ops.nodes_removed.wrapping_add(1);
    }

    /// Counts a triggered rebalance.
    pub fn record_rebalance_triggered(&mut self)
        requires
            old(self).wf(),
        ensures
            final(self).wf(),
            final(self).spec_node_ops() == (NodeOperationsSnapshot {
                rebalances_triggered: bump(old(self).spec_node_ops().rebalances_triggered, 1),
                ..old(self).spec_node_ops()
            }),
            final(self).same_but_node_ops(old(self)),
    {
        self.node_ops.rebalances_triggered = self.node_ops.rebalances_triggered.wrapping_add(1);
    }

    /// Everything but the migration counters and durations is unchanged.
    pub open spec fn same_but_migration(&self, other: &Self) -> bool {
        &&& self.spec_node_ops() == other.spec_node_ops()
        &&& self.spec_replication() == other.spec_replication()
        &&& self.spec_error_counts() == other.spec_error_counts()
        &&& self.spec_recent_kinds() == other.spec_recent_kinds()
        &&& self.spec_history() == other.spec_history()
        &&& self.spec_last_update() == other.spec_last_update()
        &&& self.spec_interval() == other.spec_interval()
    }

    /// Counts a migration that started.
    pub fn record_migration_started(&mut self)
        requires
            old(self).wf(),
        ensures
            final(self).wf(),
            final(self).spec_migration() == (MigrationCounters {
                migrations_started: bump(old(self).spec_migration().migrations_started, 1),
                active_migrations: if old(self).spec_migration().active_migrations == usize::MAX { 0 }
                    else { (old(self).spec_migration().active_migrations + 1) as usize },
                ..old(self).spec_migration()
            }),
            final(self).spec_durations() == old(self).spec_durations(),
            final(self).same_but_migration(old(self)),
    {
        self.migration.migrations_started = self.migration.migrations_started.wrapping_add(1);
        self.migration.active_migrations = self.migration.active_migrations.wrapping_add(1);
    }

    fn push_duration(&mut self, duration: &Duration)
        requires
            old(self).wf(),
        ensures
            final(self).wf(),
            final(self).spec_migration() == old(self).spec_migration(),
            final(self).same_but_migration(old(self)),
            exists|ms: u64| {
                &&& final(self).spec_durations() == windowed(old(self).spec_durations(), ms, MAX_DURATIONS as nat)
                &&& forall|m: u64| *duration == millis_duration(m) ==> ms == m
                &&& forall|s: u64| *duration == secs_duration(s) && s * 1000 <= u64::MAX ==> ms == s * 1000
            },
    {
        let ms = duration_as_millis(duration);
        self.migration_durations_ms.push(ms);
        if self.migration_durations_ms.len() > MAX_DURATIONS {
            self.migration_durations_ms.remove(0);
        }
        assert(self.spec_durations() =~= windowed(old(self).spec_durations(), ms, MAX_DURATIONS as nat));
    }

    /// Counts a migration that completed, taking `duration` into the recent
    /// durations.
    pub fn record_migration_completed(&mut self, duration: Duration)
        requires
            old(self).wf(),
        ensures
            final(self).wf(),
            final(self).spec_migration() == (MigrationCounters {
                migrations_completed: bump(old(self).spec_migration().migrations_completed, 1),
                active_migrations: if old(self).spec_migration().active_migrations == 0 { usize::MAX }
                    else { (old(self).spec_migration().active_migrations - 1) as usize },
                ..old(self).spec_migration()
            }),
            exists|ms: u64| {
                &&& final(self).spec_durations() == windowed(old(self).spec_durations(), ms, MAX_DURATIONS as nat)
                &&& forall|m: u64| duration == millis_duration(m) ==> ms == m
                &&& forall|s: u64| duration == secs_duration(s) && s * 1000 <= u64::MAX ==> ms == s * 1000
            },
            final(self).same_but_migration(old(self)),
    {
        self.migration.migrations_completed = self.migration.migrations_completed.wrapping_add(1);
        self.migration.active_migrations = self.migration.active_migrations.wrapping_sub(1);
        self.push_duration(&duration);
    }

    /// Counts a migration that failed, taking `duration` into the recent
    /// durations.
    pub fn record_migration_failed(&mut self, duration: Duration)
        requires
            old(self).wf(),
        ensures
            final(self).wf(),
            final(self).spec_migration() == (MigrationCounters {
                migrations_failed: bump(old(self).spec_migration().migrations_failed, 1),
                active_migrations: if old(self).spec_migration().active_migrations == 0 { usize::MAX }
                    else { (old(self).spec_migration().active_migrations - 1) as usize },
                ..old(self).spec_migration()
            }),
            exists|ms: u64| {
                &&& final(self).spec_durations() == windowed(old(self).spec_durations(), ms, MAX_DURATIONS as nat)
                &&& forall|m: u64| duration == millis_duration(m) ==> ms == m
                &&& forall|s: u64| duration == secs_duration(s) && s * 1000 <= u64::MAX ==> ms == s * 1000
            },
            final(self).same_but_migration(old(self)),
    {
        self.migration.migrations_failed = self.migration.migrations_failed.wrapping_add(1);
        self.migration.active_migrations = self.migration.active_migrations.wrapping_sub(1);
        self.push_duration(&duration);
    }

    /// Adds `count` migrated keys.
    pub fn record_keys_migrated(&mut self, count: u64)
        requires
            old(self).wf(),
        ensures
            final(self).wf(),
            final(self).spec_migration() == (MigrationCounters {
                keys_migrated: bump(old(self).spec_migration().keys_migrated, count),
                ..old(self).spec_migration()
            }),
            final(self).spec_durations() == old(self).spec_durations(),
            final(self).same_but_migration(old(self)),
    {
        self.migration.keys_migrated = self.migration.keys_migrated.wrapping_add(count);
    }

    /// Adds `bytes` migrated bytes.
    pub fn record_bytes_migrated(&mut self, bytes: u64)
        requires
            old(self).wf(),
        ensures
            final(self).wf(),
            final(self).spec_migration() == (MigrationCounters {
                bytes_migrated: bump(old(self).spec_migration().bytes_migrated, bytes),
                ..old(self).spec_migration()
            }),
            final(self).spec_durations() == old(self).spec_durations(),
            final(self).same_but_migration(old(self)),
    {
        self.migration.bytes_migrated = self.migration.bytes_migrated.wrapping_add(bytes);
    }

    /// Everything but the replication counters is unchanged.
    pub open spec fn same_but_replication(&self, other: &Self) -> bool {
        &&& self.spec_node_ops() == other.spec_node_ops()
        &&& self.spec_migration() == other.spec_migration()
        &&& self.spec_durations() == other.spec_durations()
        &&& self.spec_error_counts() == other.spec_error_counts()
        &&& self.spec_recent_kinds() == other.spec_recent_kinds()
        &&& self.spec_history() == other.spec_history()
        &&& self.spec_last_update() == other.spec_last_update()
        &&& self.spec_interval() == other.spec_interval()
    }

    /// Counts a replicated write to `replicas` replicas, `successful` of
    /// which took it.
    pub fn record_replication_write(&mut self, replicas: usize, successful: usize)
        requires
            old(self).wf(),
        ensures
            final(self).wf(),
            final(self).spec_replication() == (ReplicationCounters {
                write_operations: bump(old(self).spec_replication().write_operations, 1),
                total_write_replicas: bump(old(self).spec_replication().total_write_replicas, replicas as u64),
                successful_write_replicas: bump(old(self).spec_replication().successful_write_replicas, successful as u64),
                ..old(self).spec_replication()
            }),
            final(self).same_but_replication(old(self)),
    {
        self.replication.write_operations = self.replication.write_operations.wrapping_add(1);
        self.replication.total_write_replicas = self.replication.total_write_replicas.wrapping_add(replicas as u64);
        self.replication.successful_write_replicas = self.replication.successful_write_replicas.wrapping_add(successful as u64);
    }

    /// Counts a replicated read from `replicas` replicas, `successful` of
    /// which answered.
    pub fn record_replication_read(&mut self, replicas: usize, successful: usize)
        requires
            old(self).wf(),
        ensures
            final(self).wf(),
            final(self).spec_replication() == (ReplicationCounters {
                read_operations: bump(old(self).spec_replication().read_operations, 1),
                total_read_replicas: bump(old(self).spec_replication().total_read_replicas, replicas as u64),
                successful_read_replicas: bump(old(self).spec_replication().successful_read_replicas, successful as u64),
                ..old(self).spec_replication()
            }),
            final(self).same_but_replication(old(self)),
    {
        self.replication.read_operations = self.replication.read_operations.wrapping_add(1);
        self.replication.total_read_replicas = self.replication.total_read_replicas.wrapping_add(replicas as u64);
        self.replication.successful_read_replicas = self.replication.successful_read_replicas.wrapping_add(successful as u64);
    }

    /// Counts an error of `error_type`: once more in its count, and as the
    /// newest of the recent errors.
    pub fn record_error(&mut self, error_type: &str)
        requires
            old(self).wf(),
        ensures
            final(self).wf(),
            exists|k: int| #[trigger] kind_counted(old(self).spec_error_counts(), final(self).spec_error_counts(), error_type@, k),
            final(self).spec_recent_kinds() == windowed(old(self).spec_recent_kinds(), error_type@, MAX_ERRORS as nat),
            final(self).spec_node_ops() == old(self).spec_node_ops(),
            final(self).spec_migration() == old(self).spec_migration(),
            final(self).spec_durations() == old(self).spec_durations(),
            final(self).spec_replication() == old(self).spec_replication(),
            final(self).spec_history() == old(self).spec_history(),
            final(self).spec_last_update() == old(self).spec_last_update(),
            final(self).spec_interval() == old(self).spec_interval(),
    {
        let ghost old_counts = self.error_counts@;
        let ghost mut at: int = 0;
        match find_kind(&self.error_counts, error_type) {
            Some(i) => {
                let c = self.error_counts[i].1.wrapping_add(1);
                let key = self.error_counts[i].0.clone();
                self.error_counts.set(i, (key, c));
                proof { at = i as int; }
                assert(kind_counted(old_counts, self.error_counts@, error_type@, at));
            },
            None => {
                let n = self.error_counts.len();
                self.error_counts.push((error_type.to_string(), 1));
                proof { at = n as int; }
                assert(kind_counted(old_counts, self.error_counts@, error_type@, at));
            },
        }
        let ghost old_kinds = self.spec_recent_kinds();
        self.last_errors.push(ErrorEvent { error_type: error_type.to_string(), timestamp: system_now() });
        if self.last_errors.len() > MAX_ERRORS {
            self.last_errors.remove(0);
        }
        assert(self.spec_recent_kinds() =~= windowed(old_kinds, error_type@, MAX_ERRORS as nat));
        assert(kind_counted(old_counts, self.spec_error_counts(), error_type@, at));
    }

    /// Counts a write or read that missed its quorum, and records it as a
    /// "quorum_failure" error.
    pub fn record_quorum_failure(&mut self)
        requires
            old(self).wf(),
        ensures
            final(self).wf(),
            final(self).spec_replication() == (ReplicationCounters {
                quorum_failures: bump(old(self).spec_replication().quorum_failures, 1),
                ..old(self).spec_replication()
            }),
            exists|k: int| #[trigger] kind_counted(old(self).spec_error_counts(), final(self).spec_error_counts(), "quorum_failure"@, k),
            final(self).spec_recent_kinds() == windowed(old(self).spec_recent_kinds(), "quorum_failure"@, MAX_ERRORS as nat),
            final(self).spec_node_ops() == old(self).spec_node_ops(),
            final(self).spec_migration() == old(self).spec_migration(),
            final(self).spec_durations() == old(self).spec_durations(),
            final(self).spec_history() == old(self).spec_history(),
            final(self).spec_last_update() == old(self).spec_last_update(),
            final(self).spec_interval() == old(self).spec_interval(),
    {
        self.replication.quorum_failures = self.replication.quorum_failures.wrapping_add(1);
        self.record_error("quorum_failure");
    }

    /// Records the cluster statistics taken at `now_ms` as the newest.
    pub fn update_cluster_stats(&mut self, stats: ClusterStats, now_ms: u64)
        requires
            old(self).wf(),
        ensures
            final(self).wf(),
            final(self).spec_history() == windowed(old(self).spec_history(),
                ClusterStatsEntry { timestamp_ms: now_ms, stats }, MAX_HISTORY as nat),
            final(self).spec_last_update() == Some(now_ms),
            final(self).spec_node_ops() == old(self).spec_node_ops(),
            final(self).spec_migration() == old(self).spec_migration(),
            final(self).spec_durations() == old(self).spec_durations(),
            final(self).spec_replication() == old(self).spec_replication(),
            final(self).spec_error_counts() == old(self).spec_error_counts(),
            final(self).spec_recent_kinds() == old(self).spec_recent_kinds(),
            final(self).spec_interval() == old(self).spec_interval(),
    {
        self.stats_history.push(ClusterStatsEntry { timestamp_ms: now_ms, stats });
        if self.stats_history.len() > MAX_HISTORY {
            self.stats_history.remove(0);
        }
        self.last_update_ms = Some(now_ms);
        assert(self.spec_history() =~= windowed(old(self).spec_history(),
            ClusterStatsEntry { timestamp_ms: now_ms, stats }, MAX_HISTORY as nat));
    }

    /// Zeroes every counter and empties every window.
    pub fn reset(&mut self)
        ensures
            final(self).is_zeroed(),
            final(self).spec_interval() == old(self).spec_interval(),
    {
        let interval = self.collection_interval;
        *self = ShardMetrics::new(interval);
    }

    /// Every counter now: the mean of the recent migration durations, the
    /// replica success rates in thousandths, the errors by kind with their
    /// total, and the latest cluster statistics.
    pub fn get_snapshot(&self) -> (res: MetricsSnapshot)
        requires
            self.wf(),
        ensures
            res.node_operations == self.spec_node_ops(),
            res.migration.migrations_started == self.spec_migration().migrations_started,
            res.migration.migrations_completed == self.spec_migration().migrations_completed,
            res.migration.migrations_failed == self.spec_migration().migrations_failed,
            res.migration.active_migrations == self.spec_migration().active_migrations,
            res.migration.keys_migrated == self.spec_migration().keys_migrated,
            res.migration.bytes_migrated == self.spec_migration().bytes_migrated,
            res.migration.average_duration == millis_duration(mean_millis(self.spec_durations())),
            res.replication == (ReplicationSnapshot {
                write_operations: self.spec_replication().write_operations,
                read_operations: self.spec_replication().read_operations,
                write_success_permille: rate_permille(self.spec_replication().successful_write_replicas,
                    self.spec_replication().total_write_replicas),
                read_success_permille: rate_permille(self.spec_replication().successful_read_replicas,
                    self.spec_replication().total_read_replicas),
                quorum_failures: self.spec_replication().quorum_failures,
            }),
            res.errors.error_counts@.len() == self.spec_error_counts().len(),
            forall|k: int| 0 <= k < res.errors.error_counts@.len() ==>
                (#[trigger] res.errors.error_counts@[k]).0@ == self.spec_error_counts()[k].0@
                && res.errors.error_counts@[k].1 == self.spec_error_counts()[k].1,
            res.errors.total_errors == (count_total(self.spec_error_counts()) % 0x1_0000_0000_0000_0000) as u64,
            event_kinds(res.errors.recent_errors@) == self.spec_recent_kinds(),
            res.cluster.stats_history@ == self.spec_history(),
            res.cluster.current_stats == if self.spec_history().len() > 0 {
                Some(self.spec_history().last().stats)
            } else {
                None::<ClusterStats>
            },
            res.cluster.last_update_ms == self.spec_last_update(),
    {
        let avg = mean_of(&self.migration_durations_ms);
        let migration = MigrationSnapshot {
            migrations_started: self.migration.migrations_started,
            migrations_completed: self.migration.migrations_completed,
            migrations_failed: self.migration.migrations_failed,
            active_migrations: self.migration.active_migrations,
            keys_migrated: self.migration.keys_migrated,
            bytes_migrated: self.migration.bytes_migrated,
            average_duration: duration_from_millis(avg),
        };
        let replication = ReplicationSnapshot {
            write_operations: self.replication.write_operations,
            read_operations: self.replication.read_operations,
            write_success_permille: rate_of(self.replication.successful_write_replicas, self.replication.total_write_replicas),
            read_success_permille: rate_of(self.replication.successful_read_replicas, self.replication.total_read_replicas),
            quorum_failures: self.replication.quorum_failures,
        };
        let mut counts: Vec<(String, u64)> = Vec::new();
        let mut total: u64 = 0;
        let mut i: usize = 0;
        while i < self.error_counts.len()
            invariant
                i <= self.error_counts@.len(),
                counts@.len() == i,
                forall|k: int| 0 <= k < i ==>
                    (#[trigger] counts@[k]).0@ == self.error_counts@[k].0@ && counts@[k].1 == self.error_counts@[k].1,
                total == (count_total(self.error_counts@.take(i as int)) % 0x1_0000_0000_0000_0000) as u64,
            decreases self.error_counts@.len() - i,
        {
            assert(self.error_counts@.take(i + 1).drop_last() =~= self.error_counts@.take(i as int));
            let c = self.error_counts[i].1;
            counts.push((self.error_counts[i].0.clone(), c));
            total = total.wrapping_add(c);
            i = i + 1;
        }
        assert(self.error_counts@.take(self.error_counts@.len() as int) =~= self.error_counts@);
        let mut recent: Vec<ErrorEvent> = Vec::new();
        let mut j: usize = 0;
        while j < self.last_errors.len()
            invariant
                j <= self.last_errors@.len(),
                recent@.len() == j,
                event_kinds(recent@) == event_kinds(self.last_errors@.take(j as int)),
            decreases self.last_errors@.len() - j,
        {
            let e = ErrorEvent {
                error_type: self.last_errors[j].error_type.clone(),
                timestamp: self.last_errors[j].timestamp.clone(),
            };
            let ghost before = recent@;
            assert(e.error_type@ == self.last_errors@[j as int].error_type@);
            recent.push(e);
            proof {
                let t = self.last_errors@.take(j + 1);
                assert forall|i: int| 0 <= i < j + 1 implies #[trigger] event_kinds(recent@)[i] == event_kinds(t)[i] by {
                    if i < j {
                        assert(recent@[i] == before[i]);
                        assert(event_kinds(before)[i] == event_kinds(self.last_errors@.take(j as int))[i]);
                    }
                }
                assert(event_kinds(recent@) =~= event_kinds(t));
            }
            j = j + 1;
        }
        assert(self.last_errors@.take(self.last_errors@.len() as int) =~= self.last_errors@);
        let mut history: Vec<ClusterStatsEntry> = Vec::new();
        let mut h: usize = 0;
        while h < self.stats_history.len()
            invariant
                h <= self.stats_history@.len(),
                history@ == self.stats_history@.take(h as int),
            decreases self.stats_history@.len() - h,
        {
            history.push(self.stats_history[h]);
            assert(history@ =~= self.stats_history@.take(h + 1));
            h = h + 1;
        }
        assert(self.stats_history@.take(self.stats_history@.len() as int) =~= self.stats_history@);
        let current = if self.stats_history.len() > 0 {
            Some(self.stats_history[self.stats_history.len() - 1].stats)
        } else {
            None
        };
        MetricsSnapshot {
            timestamp: system_now(),
            node_operations: self.node_ops,
            migration,
            replication,
            errors: ErrorSnapshot { error_counts: counts, total_errors: total, recent_errors: recent },
            cluster: ClusterSnapshot { current_stats: current, stats_history: history, last_update_ms: self.last_update_ms },
        }
    }
}

} // verus!

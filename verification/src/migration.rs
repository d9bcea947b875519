//! Migrations of hash ranges between nodes: their life cycle, plans and
//! the bookkeeping of active and finished migrations.

use vstd::prelude::*;
use std::time::{Duration, SystemTime};
use crate::clock::{duration_between, duration_from_secs, secs_duration, system_now};
use crate::ids::{random_uuid, uuid_text, uuid_to_string};
use crate::node::NodeId;
use crate::shard_error::ShardError;
use crate::text::{concat_str, decimal, u64_to_decimal};

verus! {

/// Identifier of a migration.
#[derive(Debug, Clone, Copy, PartialEq, Eq, Hash, Structural)]
pub struct MigrationId(u128);

impl View for MigrationId {
    type V = u128;

    closed spec fn view(&self) -> u128 {
        self.0
    }
}

impl MigrationId {
    /// A fresh random identifier.
    pub fn new() -> (res: MigrationId) {
        MigrationId(random_uuid())
    }

    /// The identifier's 128-bit value.
    pub fn as_u128(&self) -> (res: u128)
        ensures
            res == self@,
    {
        self.0
    }
}

/// Status of a migration.
#[derive(Debug, Clone, Copy, PartialEq, Eq, Structural)]
pub enum MigrationStatus {
    Planned,
    InProgress,
    Completed,
    Failed,
    Cancelled,
}

/// What a migration is, apart from its timestamps.
pub struct MigrationView {
    pub id: u128,
    pub range: (u64, u64),
    pub source: Seq<char>,
    pub destination: Seq<char>,
    pub status: MigrationStatus,
    pub started: bool,
    pub completed: bool,
    pub keys_migrated: u64,
    pub total_keys: Option<u64>,
    pub error_message: Option<Seq<char>>,
}

/// A migration of a hash range from a source to a destination node.
#[derive(Debug)]
pub struct Migration {
    pub id: MigrationId,
    pub range: (u64, u64),
    pub source_node: NodeId,
    pub destination_node: NodeId,
    pub status: MigrationStatus,
    pub created_at: SystemTime,
    pub started_at: Option<SystemTime>,
    pub completed_at: Option<SystemTime>,
    pub keys_migrated: u64,
    pub total_keys: Option<u64>,
    pub error_message: Option<String>,
}

/// The view of an optional string.
pub open spec fn opt_text(s: Option<String>) -> Option<Seq<char>> {
    match s {
        Some(t) => Some(t@),
        None => None,
    }
}

impl View for Migration {
    type V = MigrationView;

    open spec fn view(&self) -> MigrationView {
        MigrationView {
            id: self.id@,
            range: self.range,
            source: self.source_node@,
            destination: self.destination_node@,
            status: self.status,
            started: self.started_at is Some,
            completed: self.completed_at is Some,
            keys_migrated: self.keys_migrated,
            total_keys: self.total_keys,
            error_message: opt_text(self.error_message),
        }
    }
}

impl Clone for Migration {
    fn clone(&self) -> (res: Self)
        ensures
            res@ == self@,
    {
        let error_message = match &self.error_message {
            Some(m) => Some(m.clone()),
            None => None,
        };
        Migration {
            id: self.id,
            range: self.range,
            source_node: self.source_node.clone(),
            destination_node: self.destination_node.clone(),
            status: self.status,
            created_at: self.created_at,
            started_at: self.started_at,
            completed_at: self.completed_at,
            keys_migrated: self.keys_migrated,
            total_keys: self.total_keys,
            error_message,
        }
    }
}

impl Migration {
    /// A planned migration of `range` from `source_node` to `destination_node`.
    pub fn new(range: (u64, u64), source_node: NodeId, destination_node: NodeId) -> (res: Migration)
        ensures
            res@.range == range,
            res@.source == source_node@,
            res@.destination == destination_node@,
            res@.status == MigrationStatus::Planned,
            !res@.started,
            !res@.completed,
            res@.keys_migrated == 0,
            res@.total_keys is None,
            res@.error_message is None,
    {
        Migration {
            id: MigrationId::new(),
            range,
            source_node,
            destination_node,
            status: MigrationStatus::Planned,
            created_at: system_now(),
            started_at: None,
            completed_at: None,
            keys_migrated: 0,
            total_keys: None,
            error_message: None,
        }
    }

    /// Marks the migration as in progress, recording its start time.
    pub fn start(&mut self)
        ensures
            final(self)@ == (MigrationView { status: MigrationStatus::InProgress, started: true, ..old(self)@ }),
    {
        self.status = MigrationStatus::InProgress;
        self.started_at = Some(system_now());
    }

    /// Marks the migration as completed, recording its end time.
    pub fn complete(&mut self)
        ensures
            final(self)@ == (MigrationView { status: MigrationStatus::Completed, completed: true, ..old(self)@ }),
    {
        self.status = MigrationStatus::Completed;
        self.completed_at = Some(system_now());
    }

    /// How long the migration ran: from its start to its end, when it has
    /// both.
    pub fn duration(&self) -> (res: Option<Duration>)
        ensures
            (self.started_at is None || self.completed_at is None) ==> res is None,
    {
        match (&self.started_at, &self.completed_at) {
            (Some(s), Some(c)) => duration_between(c, s),
            _ => None,
        }
    }

    /// Marks the migration as failed with `error`, recording its end time.
    pub fn fail(&mut self, error: String)
        ensures
            final(self)@ == (MigrationView {
                status: MigrationStatus::Failed,
                completed: true,
                error_message: Some(error@),
                ..old(self)@
            }),
    {
        self.status = MigrationStatus::Failed;
        self.completed_at = Some(system_now());
        self.error_message = Some(error);
    }

    /// Records progress; a known total replaces the previous one.
    pub fn update_progress(&mut self, keys_migrated: u64, total_keys: Option<u64>)
        ensures
            final(self)@ == (MigrationView {
                keys_migrated,
                total_keys: if total_keys is Some { total_keys } else { old(self)@.total_keys },
                ..old(self)@
            }),
    {
        self.keys_migrated = keys_migrated;
        if let Some(total) = total_keys {
            self.total_keys = Some(total);
        }
    }

    /// Whether the migration is in progress.
    pub fn is_active(&self) -> (res: bool)
        ensures
            res == (self@.status == MigrationStatus::InProgress),
    {
        self.status == MigrationStatus::InProgress
    }

    /// Whether the migration has completed, failed or been cancelled.
    pub fn is_finished(&self) -> (res: bool)
        ensures
            res == (self@.status == MigrationStatus::Completed || self@.status == MigrationStatus::Failed
                || self@.status == MigrationStatus::Cancelled),
    {
        match self.status {
            MigrationStatus::Completed | MigrationStatus::Failed | MigrationStatus::Cancelled => true,
            _ => false,
        }
    }

    /// The migrated and total key counts progress is measured by: `None`
    /// while the total is unknown, and a complete ratio for an empty total.
    pub fn progress_parts(&self) -> (res: Option<(u64, u64)>)
        ensures
            match self@.total_keys {
                None => res is None,
                Some(total) => res == if total == 0 { Some((1u64, 1u64)) } else { Some((self@.keys_migrated, total)) },
            },
    {
        match self.total_keys {
            None => None,
            Some(total) => if total == 0 { Some((1, 1)) } else { Some((self.keys_migrated, total)) },
        }
    }
}

/// A list of migrations with an estimated duration and a priority.
#[derive(Debug)]
pub struct MigrationPlan {
    pub migrations: Vec<Migration>,
    pub estimated_duration: Duration,
    pub priority: u8,
}

impl MigrationPlan {
    /// A plan of the given migrations, estimated at one minute each, with
    /// priority 0.
    pub fn new(migrations: Vec<Migration>) -> (res: MigrationPlan)
        requires
            migrations@.len() * 60 <= u64::MAX,
        ensures
            res.migrations@ == migrations@,
            res.estimated_duration == secs_duration((migrations@.len() * 60) as u64),
            res.priority == 0,
    {
        let seconds = migrations.len() as u64 * 60;
        MigrationPlan { migrations, estimated_duration: duration_from_secs(seconds), priority: 0 }
    }

    /// The plan with the given priority.
    pub fn with_priority(self, priority: u8) -> (res: MigrationPlan)
        ensures
            res.migrations@ == self.migrations@,
            res.estimated_duration == self.estimated_duration,
            res.priority == priority,
    {
        MigrationPlan { priority, ..self }
    }

    /// Whether the plan holds no migration.
    pub fn is_empty(&self) -> (res: bool)
        ensures
            res == (self.migrations@.len() == 0),
    {
        self.migrations.len() == 0
    }

    /// Number of migrations in the plan.
    pub fn migration_count(&self) -> (res: usize)
        ensures
            res == self.migrations@.len(),
    {
        self.migrations.len()
    }
}

/// Counts of migrations by state.
#[derive(Debug, Clone, Copy, PartialEq, Eq, Structural)]
pub struct MigrationCounts {
    pub active_count: usize,
    pub completed_count: usize,
    pub failed_count: usize,
    pub cancelled_count: usize,
}

/// Number of migrations of `s` with status `st`.
pub open spec fn count_status(s: Seq<MigrationView>, st: MigrationStatus) -> nat
    decreases s.len(),
{
    if s.len() == 0 {
        0
    } else {
        count_status(s.drop_last(), st) + if s.last().status == st { 1nat } else { 0nat }
    }
}

/// The views of a sequence of migrations.
pub open spec fn migration_views(s: Seq<Migration>) -> Seq<MigrationView> {
    s.map_values(|m: Migration| m@)
}

/// Index of the migration with identifier `id`, or -1.
pub open spec fn migration_index(s: Seq<MigrationView>, id: u128) -> int
    decreases s.len(),
{
    if s.len() == 0 {
        -1
    } else if s.last().id == id {
        s.len() - 1
    } else {
        migration_index(s.drop_last(), id)
    }
}

/// The longest migration history kept.
pub const MAX_HISTORY_SIZE: usize = 1000;

/// Bookkeeping of the migrations of a shard: those active and a bounded
/// history of finished ones.
pub struct ShardMigrator {
    active_migrations: Vec<Migration>,
    migration_history: Vec<Migration>,
    plan_running: bool,
}

impl ShardMigrator {
    /// The active migrations.
    pub closed spec fn active(&self) -> Seq<MigrationView> {
        migration_views(self.active_migrations@)
    }

    /// The finished migrations, oldest first.
    pub closed spec fn history(&self) -> Seq<MigrationView> {
        migration_views(self.migration_history@)
    }

    /// Whether a plan is being carried out.
    pub closed spec fn spec_plan_running(&self) -> bool {
        self.plan_running
    }

    /// A migrator with no migration.
    pub fn new() -> (res: ShardMigrator)
        ensures
            res.active().len() == 0,
            res.history().len() == 0,
            !res.spec_plan_running(),
    {
        ShardMigrator { active_migrations: Vec::new(), migration_history: Vec::new(), plan_running: false }
    }

    /// Position of migration `id` in `v`.
    fn find(v: &Vec<Migration>, id: &MigrationId) -> (res: Option<usize>)
        ensures
            match res {
                Some(i) => i == migration_index(migration_views(v@), id@) && i < v@.len(),
                None => migration_index(migration_views(v@), id@) == -1,
            },
    {
        let mut i: usize = v.len();
        assert(migration_views(v@).take(i as int) =~= migration_views(v@));
        while i > 0
            invariant
                i <= v@.len(),
                migration_index(migration_views(v@), id@) == migration_index(migration_views(v@).take(i as int), id@),
            decreases i,
        {
            proof {
                assert(migration_views(v@).take(i as int).last() == v@[i - 1]@);
                assert(migration_views(v@).take(i as int).drop_last() =~= migration_views(v@).take(i - 1));
            }
            if v[i - 1].id == *id {
                return Some(i - 1);
            }
            i = i - 1;
        }
        None
    }

    /// Takes up a plan: an empty plan needs nothing (`Ok(false)`); while
    /// another plan runs, the plan is refused; otherwise it now runs
    /// (`Ok(true)`).
    pub fn begin_plan(&mut self, plan: &MigrationPlan) -> (res: Result<bool, ShardError>)
        ensures
            final(self).active() == old(self).active(),
            final(self).history() == old(self).history(),
            plan.migrations@.len() == 0 ==> res == Ok::<bool, ShardError>(false)
                && final(self).spec_plan_running() == old(self).spec_plan_running(),
            plan.migrations@.len() > 0 && old(self).spec_plan_running() ==> (res matches Err(ShardError::MigrationInProgress { start, end })
                && start == 0 && end == u64::MAX) && final(self).spec_plan_running(),
            plan.migrations@.len() > 0 && !old(self).spec_plan_running() ==> res == Ok::<bool, ShardError>(true)
                && final(self).spec_plan_running(),
    {
        if plan.is_empty() {
            return Ok(false);
        }
        if self.plan_running {
            return Err(ShardError::MigrationInProgress { start: 0, end: u64::MAX });
        }
        self.plan_running = true;
        Ok(true)
    }

    /// Ends the running plan, given how many of its migrations failed: any
    /// failure fails the plan.
    pub fn finish_plan(&mut self, failed_migrations: usize) -> (res: Result<(), ShardError>)
        ensures
            final(self).active() == old(self).active(),
            final(self).history() == old(self).history(),
            !final(self).spec_plan_running(),
            failed_migrations == 0 ==> res is Ok,
            failed_migrations > 0 ==> (res matches Err(ShardError::MigrationFailed { reason })
                && reason@ == decimal(failed_migrations as nat) + " migrations failed"@),
    {
        self.plan_running = false;
        if failed_migrations > 0 {
            let n = u64_to_decimal(failed_migrations as u64);
            return Err(ShardError::MigrationFailed { reason: concat_str(n.as_str(), " migrations failed") });
        }
        Ok(())
    }

    /// Plans a migration of `start..=end` away from `source_node` to the
    /// destination node ("destination-node") and records it as active.
    pub fn plan_range_migration(&mut self, start: u64, end: u64, source_node: NodeId) -> (res: MigrationId)
        ensures
            final(self).history() == old(self).history(),
            final(self).active().len() == old(self).active().len() + 1,
            final(self).active().drop_last() == old(self).active(),
            final(self).active().last().id == res@,
            final(self).active().last().range == (start, end),
            final(self).active().last().source == source_node@,
            final(self).active().last().destination == "destination-node"@,
            final(self).active().last().status == MigrationStatus::Planned,
    {
        let destination_node = NodeId::new("destination-node");
        let migration = Migration::new((start, end), source_node, destination_node);
        let migration_id = migration.id;
        let ghost before = self.active();
        self.active_migrations.push(migration);
        assert(self.active() =~= before.push(migration@));
        migration_id
    }

    /// Records the current state of an active migration (adding it when
    /// it is not yet recorded).
    pub fn update_migration_status(&mut self, migration: Migration)
        ensures
            final(self).history() == old(self).history(),
            migration_index(old(self).active(), migration@.id) == -1 ==>
                final(self).active() == old(self).active().push(migration@),
            migration_index(old(self).active(), migration@.id) != -1 ==>
                final(self).active() == old(self).active().update(migration_index(old(self).active(), migration@.id), migration@),
    {
        let id = migration.id;
        match Self::find(&self.active_migrations, &id) {
            Some(i) => {
                let ghost before = self.active();
                self.active_migrations.set(i, migration);
                assert(self.active() =~= before.update(i as int, migration@));
            },
            None => {
                let ghost before = self.active();
                self.active_migrations.push(migration);
                assert(self.active() =~= before.push(migration@));
            },
        }
    }

    /// Moves a finished migration from the active set to the history,
    /// dropping the oldest entry when the history exceeds its bound.
    pub fn finalize_migration(&mut self, migration: Migration)
        ensures
            migration_index(old(self).active(), migration@.id) == -1 ==> final(self).active() == old(self).active(),
            migration_index(old(self).active(), migration@.id) != -1 ==>
                final(self).active() == old(self).active().remove(migration_index(old(self).active(), migration@.id)),
            old(self).history().len() + 1 > MAX_HISTORY_SIZE ==>
                final(self).history() == old(self).history().push(migration@).drop_first(),
            old(self).history().len() + 1 <= MAX_HISTORY_SIZE ==>
                final(self).history() == old(self).history().push(migration@),
    {
        let id = migration.id;
        match Self::find(&self.active_migrations, &id) {
            Some(i) => {
                let ghost before = self.active();
                self.active_migrations.remove(i);
                assert(self.active() =~= before.remove(i as int));
            },
            None => {},
        }
        let ghost h0 = self.history();
        self.migration_history.push(migration);
        assert(self.history() =~= h0.push(migration@));
        if self.migration_history.len() > MAX_HISTORY_SIZE {
            let ghost h1 = self.history();
            self.migration_history.remove(0);
            assert(self.history() =~= h1.drop_first());
        }
    }

    /// A copy of the active migrations.
    pub fn get_active_migrations(&self) -> (res: Vec<Migration>)
        ensures
            migration_views(res@) == self.active(),
    {
        let mut out: Vec<Migration> = Vec::new();
        let mut i: usize = 0;
        while i < self.active_migrations.len()
            invariant
                i <= self.active_migrations@.len(),
                migration_views(out@) == self.active().take(i as int),
            decreases self.active_migrations@.len() - i,
        {
            let ghost before = out@;
            out.push(self.active_migrations[i].clone());
            assert(migration_views(out@) =~= migration_views(before).push(self.active_migrations@[i as int]@));
            assert(migration_views(out@) =~= self.active().take(i as int + 1));
            i = i + 1;
        }
        assert(self.active().take(i as int) =~= self.active());
        out
    }

    /// A copy of migration `migration_id`, looked up among the active
    /// migrations and then in the history.
    pub fn get_migration(&self, migration_id: &MigrationId) -> (res: Option<Migration>)
        ensures
            migration_index(self.active(), migration_id@) != -1 ==>
                (res matches Some(m) && m@ == self.active()[migration_index(self.active(), migration_id@)]),
            migration_index(self.active(), migration_id@) == -1 ==> match res {
                Some(m) => exists|k: int| 0 <= k < self.history().len() && self.history()[k] == m@
                    && m@.id == migration_id@
                    && forall|j: int| 0 <= j < k ==> self.history()[j].id != migration_id@,
                None => forall|k: int| 0 <= k < self.history().len() ==> self.history()[k].id != migration_id@,
            },
    {
        if let Some(i) = Self::find(&self.active_migrations, migration_id) {
            return Some(self.active_migrations[i].clone());
        }
        let mut k: usize = 0;
        while k < self.migration_history.len()
            invariant
                k <= self.migration_history@.len(),
                migration_index(self.active(), migration_id@) == -1,
                forall|j: int| 0 <= j < k ==> self.history()[j].id != migration_id@,
            decreases self.migration_history@.len() - k,
        {
            if self.migration_history[k].id == *migration_id {
                assert(self.history()[k as int] == self.migration_history@[k as int]@);
                return Some(self.migration_history[k].clone());
            }
            k = k + 1;
        }
        None
    }

    /// Cancels active migration `migration_id`, moving it to the history
    /// as cancelled. Fails with `InvalidState` when it is not active.
    pub fn cancel_migration(&mut self, migration_id: &MigrationId) -> (res: Result<(), ShardError>)
        ensures
            res is Ok <==> migration_index(old(self).active(), migration_id@) != -1,
            res matches Err(e) ==> (e matches ShardError::InvalidState { reason }
                && reason@ == "Migration "@ + uuid_text(migration_id@) + " not found or not active"@)
                && final(self).active() == old(self).active() && final(self).history() == old(self).history(),
            res is Ok ==> {
                let i = migration_index(old(self).active(), migration_id@);
                &&& final(self).active() == old(self).active().remove(i)
                &&& final(self).history() == old(self).history().push(MigrationView {
                    status: MigrationStatus::Cancelled,
                    completed: true,
                    ..old(self).active()[i]
                })
            },
    {
        match Self::find(&self.active_migrations, migration_id) {
            Some(i) => {
                let ghost before = self.active();
                let mut migration = self.active_migrations.remove(i);
                assert(self.active() =~= before.remove(i as int));
                migration.status = MigrationStatus::Cancelled;
                migration.completed_at = Some(system_now());
                let ghost h0 = self.history();
                self.migration_history.push(migration);
                assert(self.history() =~= h0.push(migration@));
                Ok(())
            },
            None => {
                let a = concat_str("Migration ", uuid_to_string(migration_id.as_u128()).as_str());
                let reason = concat_str(a.as_str(), " not found or not active");
                Err(ShardError::InvalidState { reason })
            },
        }
    }

    /// Number of active migrations and of finished ones by outcome.
    pub fn get_migration_counts(&self) -> (res: MigrationCounts)
        ensures
            res.active_count == self.active().len(),
            res.completed_count == count_status(self.history(), MigrationStatus::Completed),
            res.failed_count == count_status(self.history(), MigrationStatus::Failed),
            res.cancelled_count == count_status(self.history(), MigrationStatus::Cancelled),
    {
        let mut completed_count: usize = 0;
        let mut failed_count: usize = 0;
        let mut cancelled_count: usize = 0;
        let mut i: usize = 0;
        while i < self.migration_history.len()
            invariant
                i <= self.migration_history@.len(),
                completed_count == count_status(self.history().take(i as int), MigrationStatus::Completed),
                failed_count == count_status(self.history().take(i as int), MigrationStatus::Failed),
                cancelled_count == count_status(self.history().take(i as int), MigrationStatus::Cancelled),
                completed_count <= i,
                failed_count <= i,
                cancelled_count <= i,
            decreases self.migration_history@.len() - i,
        {
            proof {
                assert(self.history().take(i as int + 1).drop_last() =~= self.history().take(i as int));
                assert(self.history().take(i as int + 1).last() == self.migration_history@[i as int]@);
            }
            match self.migration_history[i].status {
                MigrationStatus::Completed => { completed_count = completed_count + 1; },
                MigrationStatus::Failed => { failed_count = failed_count + 1; },
                MigrationStatus::Cancelled => { cancelled_count = cancelled_count + 1; },
                _ => {},
            }
            i = i + 1;
        }
        assert(self.history().take(i as int) =~= self.history());
        MigrationCounts {
            active_count: self.active_migrations.len(),
            completed_count,
            failed_count,
            cancelled_count,
        }
    }
}

/// Whether `(start, end)` lies within one of `ranges`.
pub open spec fn within_some(ranges: Seq<(u64, u64)>, start: u64, end: u64) -> bool {
    exists|k: int| 0 <= k < ranges.len() && start >= (#[trigger] ranges[k]).0 && end <= ranges[k].1
}

/// The first node of `target` one of whose ranges holds `(start, end)`.
pub open spec fn target_index(target: Seq<(NodeId, Vec<(u64, u64)>)>, start: u64, end: u64) -> int
    decreases target.len(),
{
    if target.len() == 0 {
        -1
    } else if target_index(target.drop_last(), start, end) != -1 {
        target_index(target.drop_last(), start, end)
    } else if within_some(target.last().1@, start, end) {
        target.len() - 1
    } else {
        -1
    }
}

proof fn lemma_target_index_prefix(t: Seq<(NodeId, Vec<(u64, u64)>)>, j: int, start: u64, end: u64)
    requires
        0 <= j <= t.len(),
        target_index(t.take(j), start, end) != -1,
    ensures
        target_index(t, start, end) == target_index(t.take(j), start, end),
    decreases t.len(),
{
    if j < t.len() {
        assert(t.drop_last().take(j) =~= t.take(j));
        lemma_target_index_prefix(t.drop_last(), j, start, end);
    } else {
        assert(t.take(j) =~= t);
    }
}

/// The node of `target_distribution` whose ranges hold `start..=end`: the
/// first such node, if any.
pub fn find_target_node_for_range(start: u64, end: u64, target_distribution: &Vec<(NodeId, Vec<(u64, u64)>)>) -> (res: Option<NodeId>)
    ensures
        match res {
            Some(n) => target_index(target_distribution@, start, end) != -1
                && n@ == target_distribution@[target_index(target_distribution@, start, end)].0@,
            None => target_index(target_distribution@, start, end) == -1,
        },
{
    let mut i: usize = 0;
    while i < target_distribution.len()
        invariant
            i <= target_distribution@.len(),
            target_index(target_distribution@.take(i as int), start, end) == -1,
        decreases target_distribution@.len() - i,
    {
        let ranges = &target_distribution[i].1;
        let mut k: usize = 0;
        while k < ranges.len()
            invariant
                k <= ranges@.len(),
                i < target_distribution@.len(),
                *ranges == target_distribution@[i as int].1,
                target_index(target_distribution@.take(i as int), start, end) == -1,
                forall|m: int| 0 <= m < k ==> !(start >= ranges@[m].0 && end <= ranges@[m].1),
            decreases ranges@.len() - k,
        {
            let (range_start, range_end) = ranges[k];
            if start >= range_start && end <= range_end {
                proof {
                    let t = target_distribution@.take(i as int + 1);
                    assert(t.drop_last() =~= target_distribution@.take(i as int));
                    assert(t.last() == target_distribution@[i as int]);
                    assert(within_some(ranges@, start, end));
                    assert(target_index(t, start, end) == i);
                    lemma_target_index_prefix(target_distribution@, i as int + 1, start, end);
                }
                return Some(target_distribution[i].0.clone());
            }
            k = k + 1;
        }
        proof {
            let t = target_distribution@.take(i as int + 1);
            assert(t.drop_last() =~= target_distribution@.take(i as int));
            assert(t.last() == target_distribution@[i as int]);
            assert(!within_some(ranges@, start, end));
        }
        i = i + 1;
    }
    assert(target_distribution@.take(i as int) =~= target_distribution@);
    None
}

/// The migrations moving each range of `node_distribution` to the node of
/// `target_distribution` holding it, when that node differs.
pub open spec fn rebalance_moves(
    node_distribution: Seq<(NodeId, Vec<(u64, u64)>)>,
    target: Seq<(NodeId, Vec<(u64, u64)>)>,
) -> Seq<((u64, u64), Seq<char>, Seq<char>)>
    decreases node_distribution.len(),
{
    if node_distribution.len() == 0 {
        Seq::empty()
    } else {
        let (source, ranges) = node_distribution.last();
        rebalance_moves(node_distribution.drop_last(), target) + moves_of(source@, ranges@, target)
    }
}

/// The moves of one source node's ranges.
pub open spec fn moves_of(source: Seq<char>, ranges: Seq<(u64, u64)>, target: Seq<(NodeId, Vec<(u64, u64)>)>) -> Seq<((u64, u64), Seq<char>, Seq<char>)>
    decreases ranges.len(),
{
    if ranges.len() == 0 {
        Seq::empty()
    } else {
        let (s, e) = ranges.last();
        let t = target_index(target, s, e);
        moves_of(source, ranges.drop_last(), target) + if t != -1 && target[t].0@ != source {
            seq![((s, e), source, target[t].0@)]
        } else {
            Seq::empty()
        }
    }
}

/// Where the first node holding a range is found, it is a node of the
/// target whose ranges hold it.
proof fn lemma_target_index_holds(t: Seq<(NodeId, Vec<(u64, u64)>)>, start: u64, end: u64)
    ensures
        target_index(t, start, end) != -1 ==> {
            let j = target_index(t, start, end);
            &&& 0 <= j < t.len()
            &&& exists|r: int| 0 <= r < t[j].1@.len() && t[j].1@[r].0 <= start && end <= t[j].1@[r].1
        },
    decreases t.len(),
{
    if t.len() > 0 {
        lemma_target_index_holds(t.drop_last(), start, end);
        let j = target_index(t, start, end);
        if target_index(t.drop_last(), start, end) != -1 {
            assert(t[j] == t.drop_last()[j]);
        }
    }
}

/// Each move of one source node's ranges takes one of its ranges from it to
/// another node whose ranges hold that range.
proof fn lemma_moves_of_sound(source: Seq<char>, ranges: Seq<(u64, u64)>, target: Seq<(NodeId, Vec<(u64, u64)>)>)
    ensures
        forall|i: int| 0 <= i < moves_of(source, ranges, target).len() ==> {
            let m = #[trigger] moves_of(source, ranges, target)[i];
            &&& m.1 == source
            &&& ranges.contains(m.0)
            &&& m.2 != source
            &&& exists|j: int| 0 <= j < target.len() && target[j].0@ == m.2
                && exists|r: int| 0 <= r < target[j].1@.len() && target[j].1@[r].0 <= m.0.0 && m.0.1 <= target[j].1@[r].1
        },
    decreases ranges.len(),
{
    if ranges.len() > 0 {
        let rest = ranges.drop_last();
        lemma_moves_of_sound(source, rest, target);
        let (s, e) = ranges.last();
        lemma_target_index_holds(target, s, e);
        let prev = moves_of(source, rest, target);
        let all = moves_of(source, ranges, target);
        assert forall|i: int| 0 <= i < all.len() implies {
            let m = #[trigger] all[i];
            &&& m.1 == source
            &&& ranges.contains(m.0)
            &&& m.2 != source
            &&& exists|j: int| 0 <= j < target.len() && target[j].0@ == m.2
                && exists|r: int| 0 <= r < target[j].1@.len() && target[j].1@[r].0 <= m.0.0 && m.0.1 <= target[j].1@[r].1
        } by {
            if i < prev.len() {
                assert(all[i] == prev[i]);
                let m = prev[i];
                assert(rest.contains(m.0));
                let a = choose|a: int| 0 <= a < rest.len() && rest[a] == m.0;
                assert(ranges[a] == m.0);
            } else {
                let t = target_index(target, s, e);
                assert(all[i] == ((s, e), source, target[t].0@));
                assert(ranges[ranges.len() - 1] == (s, e));
            }
        }
    }
}

/// A rebalance plan only moves a range away from the node that holds it
/// now, and only to another node whose target ranges hold that range.
pub proof fn law_rebalance_moves_sound(
    node_distribution: Seq<(NodeId, Vec<(u64, u64)>)>,
    target_distribution: Seq<(NodeId, Vec<(u64, u64)>)>,
)
    ensures
        forall|i: int| 0 <= i < rebalance_moves(node_distribution, target_distribution).len() ==> {
            let m = #[trigger] rebalance_moves(node_distribution, target_distribution)[i];
            &&& m.1 != m.2
            &&& exists|a: int| 0 <= a < node_distribution.len() && node_distribution[a].0@ == m.1
                && node_distribution[a].1@.contains(m.0)
            &&& exists|j: int| 0 <= j < target_distribution.len() && target_distribution[j].0@ == m.2
                && exists|r: int| 0 <= r < target_distribution[j].1@.len()
                    && target_distribution[j].1@[r].0 <= m.0.0 && m.0.1 <= target_distribution[j].1@[r].1
        },
    decreases node_distribution.len(),
{
    let nd = node_distribution;
    let td = target_distribution;
    if nd.len() > 0 {
        let rest = nd.drop_last();
        law_rebalance_moves_sound(rest, td);
        let (source, ranges) = nd.last();
        lemma_moves_of_sound(source@, ranges@, td);
        let prev = rebalance_moves(rest, td);
        let mine = moves_of(source@, ranges@, td);
        let all = rebalance_moves(nd, td);
        assert(all == prev + mine);
        assert forall|i: int| 0 <= i < all.len() implies {
            let m = #[trigger] all[i];
            &&& m.1 != m.2
            &&& exists|a: int| 0 <= a < nd.len() && nd[a].0@ == m.1 && nd[a].1@.contains(m.0)
            &&& exists|j: int| 0 <= j < td.len() && td[j].0@ == m.2
                && exists|r: int| 0 <= r < td[j].1@.len() && td[j].1@[r].0 <= m.0.0 && m.0.1 <= td[j].1@[r].1
        } by {
            if i < prev.len() {
                assert(all[i] == prev[i]);
                let m = prev[i];
                let a = choose|a: int| 0 <= a < rest.len() && rest[a].0@ == m.1 && rest[a].1@.contains(m.0);
                assert(nd[a] == rest[a]);
            } else {
                assert(all[i] == mine[i - prev.len()]);
                assert(mine[i - prev.len()].1 == source@);
                assert(nd[nd.len() - 1] == (source, ranges));
            }
        }
    }
}

/// The range, source and destination of a migration.
pub open spec fn move_of(m: MigrationView) -> ((u64, u64), Seq<char>, Seq<char>) {
    (m.range, m.source, m.destination)
}

/// A plan moving every range of `node_distribution` that
/// `target_distribution` places on another node, in order.
pub fn create_rebalance_plan(
    node_distribution: &Vec<(NodeId, Vec<(u64, u64)>)>,
    target_distribution: &Vec<(NodeId, Vec<(u64, u64)>)>,
) -> (res: MigrationPlan)
    requires
        rebalance_moves(node_distribution@, target_distribution@).len() * 60 <= u64::MAX,
    ensures
        migration_views(res.migrations@).map_values(|m: MigrationView| move_of(m))
            == rebalance_moves(node_distribution@, target_distribution@),
        forall|k: int| 0 <= k < res.migrations@.len() ==> (#[trigger] res.migrations@[k])@.status == MigrationStatus::Planned,
        res.priority == 0,
        forall|k: int| 0 <= k < res.migrations@.len() ==> {
            let m = (#[trigger] res.migrations@[k])@;
            &&& m.source != m.destination
            &&& exists|a: int| 0 <= a < node_distribution@.len() && node_distribution@[a].0@ == m.source
                && node_distribution@[a].1@.contains(m.range)
            &&& exists|j: int| 0 <= j < target_distribution@.len() && target_distribution@[j].0@ == m.destination
                && exists|r: int| 0 <= r < target_distribution@[j].1@.len()
                    && target_distribution@[j].1@[r].0 <= m.range.0 && m.range.1 <= target_distribution@[j].1@[r].1
        },
{
    let mut migrations: Vec<Migration> = Vec::new();
    let mut i: usize = 0;
    while i < node_distribution.len()
        invariant
            i <= node_distribution@.len(),
            migration_views(migrations@).map_values(|m: MigrationView| move_of(m))
                == rebalance_moves(node_distribution@.take(i as int), target_distribution@),
            forall|k: int| 0 <= k < migrations@.len() ==> (#[trigger] migrations@[k])@.status == MigrationStatus::Planned,
        decreases node_distribution@.len() - i,
    {
        let source_node = &node_distribution[i].0;
        let ranges = &node_distribution[i].1;
        let ghost base = migration_views(migrations@).map_values(|m: MigrationView| move_of(m));
        let mut k: usize = 0;
        while k < ranges.len()
            invariant
                k <= ranges@.len(),
                migration_views(migrations@).map_values(|m: MigrationView| move_of(m))
                    == base + moves_of(source_node@, ranges@.take(k as int), target_distribution@),
                forall|m: int| 0 <= m < migrations@.len() ==> (#[trigger] migrations@[m])@.status == MigrationStatus::Planned,
            decreases ranges@.len() - k,
        {
            let (start, end) = ranges[k];
            proof {
                assert(ranges@.take(k as int + 1).drop_last() =~= ranges@.take(k as int));
                assert(ranges@.take(k as int + 1).last() == (start, end));
            }
            let ghost before = migration_views(migrations@).map_values(|m: MigrationView| move_of(m));
            if let Some(target_node) = find_target_node_for_range(start, end, target_distribution) {
                if !target_node.same_as(source_node) {
                    let migration = Migration::new((start, end), source_node.clone(), target_node);
                    let ghost mv = migration@;
                    migrations.push(migration);
                    assert(migration_views(migrations@).map_values(|m: MigrationView| move_of(m)) =~= before.push(move_of(mv)));
                }
            }
            assert(migration_views(migrations@).map_values(|m: MigrationView| move_of(m))
                =~= base + moves_of(source_node@, ranges@.take(k as int + 1), target_distribution@));
            k = k + 1;
        }
        proof {
            assert(ranges@.take(ranges@.len() as int) =~= ranges@);
            assert(node_distribution@.take(i as int + 1).drop_last() =~= node_distribution@.take(i as int));
            assert(node_distribution@.take(i as int + 1).last() == node_distribution@[i as int]);
        }
        i = i + 1;
    }
    assert(node_distribution@.take(i as int) =~= node_distribution@);
    proof {
        law_rebalance_moves_sound(node_distribution@, target_distribution@);
        let mv = migration_views(migrations@).map_values(|m: MigrationView| move_of(m));
        assert forall|k: int| 0 <= k < migrations@.len() implies {
            let m = (#[trigger] migrations@[k])@;
            &&& m.source != m.destination
            &&& exists|a: int| 0 <= a < node_distribution@.len() && node_distribution@[a].0@ == m.source
                && node_distribution@[a].1@.contains(m.range)
            &&& exists|j: int| 0 <= j < target_distribution@.len() && target_distribution@[j].0@ == m.destination
                && exists|r: int| 0 <= r < target_distribution@[j].1@.len()
                    && target_distribution@[j].1@[r].0 <= m.range.0 && m.range.1 <= target_distribution@[j].1@[r].1
        } by {
            assert(mv[k] == move_of(migrations@[k]@));
            assert(rebalance_moves(node_distribution@, target_distribution@)[k] == mv[k]);
        }
    }
    MigrationPlan::new(migrations)
}

/// The keys of batch `batch` of a migration of `estimated_keys` keys in
/// batches of `batch_size`: a full batch, or what is left.
pub open spec fn batch_keys(estimated_keys: u64, batch_size: u64, batch: u64) -> u64 {
    let left = estimated_keys - batch * batch_size;
    if batch_size < left { batch_size } else { left as u64 }
}

impl Migration {
    /// Accounts for batch `batch` of the migration's `estimated_keys` keys
    /// in batches of `batch_size`; whether all keys are now migrated.
    pub fn migrate_batch(&mut self, estimated_keys: u64, batch_size: u64, batch: u64) -> (res: bool)
        requires
            batch * batch_size <= estimated_keys,
            old(self).keys_migrated + batch_keys(estimated_keys, batch_size, batch) <= u64::MAX,
        ensures
            final(self)@ == (MigrationView {
                keys_migrated: (old(self).keys_migrated + batch_keys(estimated_keys, batch_size, batch)) as u64,
                total_keys: Some(estimated_keys),
                ..old(self)@
            }),
            res == (final(self).keys_migrated >= estimated_keys),
    {
        let done = batch * batch_size;
        let left = estimated_keys - done;
        let keys = if batch_size < left { batch_size } else { left };
        self.keys_migrated = self.keys_migrated + keys;
        self.total_keys = Some(estimated_keys);
        self.keys_migrated >= estimated_keys
    }
}

} // verus!

//! Configuration of the sharding layer: defaults, validation and a builder.

use vstd::prelude::*;
use std::time::Duration;
use crate::clock::{duration_from_millis, millis_duration};
use crate::hash_fn::HashFunctionType;
use crate::shard_error::ShardError;

verus! {

/// Tuning of the hash ring, replication, migration and health checks.
///
/// The rebalance threshold is the fraction of imbalance that triggers a
/// rebalance, held in thousandths (100 stands for 10%).
#[derive(Debug, Clone, Copy)]
pub struct ShardConfig {
    pub virtual_nodes: usize,
    pub replication_factor: usize,
    pub migration_timeout_ms: u64,
    pub max_concurrent_migrations: usize,
    pub hash_function: HashFunctionType,
    pub auto_rebalance: bool,
    pub rebalance_threshold_permille: u32,
    pub migration_batch_size: usize,
    pub gossip_interval_ms: u64,
    pub failure_detection_timeout_ms: u64,
    pub heartbeat_interval_ms: u64,
    pub enable_compression: bool,
    pub enable_checksums: bool,
    pub max_migration_memory: usize,
    pub metrics_interval_ms: u64,
}

/// The first rule that the configuration breaks, as the message that
/// reports it, or `None` when it breaks none.
pub open spec fn shard_config_problem(c: ShardConfig) -> Option<Seq<char>> {
    if c.virtual_nodes == 0 {
        Some("virtual_nodes must be greater than 0"@)
    } else if c.virtual_nodes > 10_000 {
        Some("virtual_nodes should not exceed 10,000 for performance reasons"@)
    } else if c.replication_factor == 0 {
        Some("replication_factor must be at least 1"@)
    } else if c.replication_factor > 10 {
        Some("replication_factor should not exceed 10"@)
    } else if c.migration_timeout_ms < 1_000 {
        Some("migration_timeout_ms should be at least 1000ms"@)
    } else if c.max_concurrent_migrations == 0 {
        Some("max_concurrent_migrations must be at least 1"@)
    } else if c.rebalance_threshold_permille > 1000 {
        Some("rebalance_threshold must be between 0.0 and 1.0"@)
    } else if c.migration_batch_size == 0 {
        Some("migration_batch_size must be greater than 0"@)
    } else if c.gossip_interval_ms == 0 {
        Some("gossip_interval_ms must be greater than 0"@)
    } else if c.heartbeat_interval_ms == 0 {
        Some("heartbeat_interval_ms must be greater than 0"@)
    } else if c.max_migration_memory < 1024 * 1024 {
        Some("max_migration_memory should be at least 1MB"@)
    } else {
        None
    }
}

/// The outcome of validation: the message of the first broken rule as an
/// `InvalidConfiguration` error, or `Ok`.
pub open spec fn shard_config_checked(c: ShardConfig, res: Result<(), ShardError>) -> bool {
    match shard_config_problem(c) {
        None => res is Ok,
        Some(msg) => res matches Err(ShardError::InvalidConfiguration { reason }) && reason@ == msg,
    }
}

impl Default for ShardConfig {
    fn default() -> (res: Self)
        ensures
            res.virtual_nodes == 150,
            res.replication_factor == 3,
            res.migration_timeout_ms == 30_000,
            res.max_concurrent_migrations == 4,
            res.hash_function == HashFunctionType::AHash,
            res.auto_rebalance,
            res.rebalance_threshold_permille == 100,
            res.migration_batch_size == 1000,
            res.gossip_interval_ms == 1_000,
            res.failure_detection_timeout_ms == 10_000,
            res.heartbeat_interval_ms == 5_000,
            res.enable_compression,
            res.enable_checksums,
            res.max_migration_memory == 64 * 1024 * 1024,
            res.metrics_interval_ms == 10_000,
    {
        ShardConfig {
            virtual_nodes: 150,
            replication_factor: 3,
            migration_timeout_ms: 30_000,
            max_concurrent_migrations: 4,
            hash_function: HashFunctionType::AHash,
            auto_rebalance: true,
            rebalance_threshold_permille: 100,
            migration_batch_size: 1000,
            gossip_interval_ms: 1_000,
            failure_detection_timeout_ms: 10_000,
            heartbeat_interval_ms: 5_000,
            enable_compression: true,
            enable_checksums: true,
            max_migration_memory: 64 * 1024 * 1024,
            metrics_interval_ms: 10_000,
        }
    }
}

impl ShardConfig {
    /// A builder that starts from the default configuration.
    pub fn builder() -> (res: ShardConfigBuilder)
        ensures
            res@ == ShardConfig::default_spec(),
    {
        ShardConfigBuilder::new()
    }

    /// The default configuration as a value.
    pub open spec fn default_spec() -> ShardConfig {
        ShardConfig {
            virtual_nodes: 150,
            replication_factor: 3,
            migration_timeout_ms: 30_000,
            max_concurrent_migrations: 4,
            hash_function: HashFunctionType::AHash,
            auto_rebalance: true,
            rebalance_threshold_permille: 100,
            migration_batch_size: 1000,
            gossip_interval_ms: 1_000,
            failure_detection_timeout_ms: 10_000,
            heartbeat_interval_ms: 5_000,
            enable_compression: true,
            enable_checksums: true,
            max_migration_memory: 67_108_864usize,
            metrics_interval_ms: 10_000,
        }
    }

    /// Small values for tests: few virtual nodes, no replication, short
    /// intervals.
    pub fn test_config() -> (res: Self)
        ensures
            res == (ShardConfig {
                virtual_nodes: 10,
                replication_factor: 1,
                migration_timeout_ms: 1_000,
                max_concurrent_migrations: 1,
                hash_function: HashFunctionType::AHash,
                auto_rebalance: false,
                rebalance_threshold_permille: 200,
                migration_batch_size: 100,
                gossip_interval_ms: 100,
                failure_detection_timeout_ms: 1_000,
                heartbeat_interval_ms: 500,
                enable_compression: false,
                enable_checksums: false,
                max_migration_memory: 1_048_576usize,
                metrics_interval_ms: 1_000,
            }),
    {
        ShardConfig {
            virtual_nodes: 10,
            replication_factor: 1,
            migration_timeout_ms: 1_000,
            max_concurrent_migrations: 1,
            hash_function: HashFunctionType::AHash,
            auto_rebalance: false,
            rebalance_threshold_permille: 200,
            migration_batch_size: 100,
            gossip_interval_ms: 100,
            failure_detection_timeout_ms: 1_000,
            heartbeat_interval_ms: 500,
            enable_compression: false,
            enable_checksums: false,
            max_migration_memory: 1024 * 1024,
            metrics_interval_ms: 1_000,
        }
    }

    /// Checks the configuration's rules in order and reports the first one
    /// it breaks.
    pub fn validate(&self) -> (res: Result<(), ShardError>)
        ensures
            shard_config_checked(*self, res),
    {
        if self.virtual_nodes == 0 {
            return Err(ShardError::InvalidConfiguration {
                reason: "virtual_nodes must be greater than 0".to_owned(),
            });
        }
        if self.virtual_nodes > 10_000 {
            return Err(ShardError::InvalidConfiguration {
                reason: "virtual_nodes should not exceed 10,000 for performance reasons".to_owned(),
            });
        }
        if self.replication_factor == 0 {
            return Err(ShardError::InvalidConfiguration {
                reason: "replication_factor must be at least 1".to_owned(),
            });
        }
        if self.replication_factor > 10 {
            return Err(ShardError::InvalidConfiguration {
                reason: "replication_factor should not exceed 10".to_owned(),
            });
        }
        if self.migration_timeout_ms < 1_000 {
            return Err(ShardError::InvalidConfiguration {
                reason: "migration_timeout_ms should be at least 1000ms".to_owned(),
            });
        }
        if self.max_concurrent_migrations == 0 {
            return Err(ShardError::InvalidConfiguration {
                reason: "max_concurrent_migrations must be at least 1".to_owned(),
            });
        }
        if self.rebalance_threshold_permille > 1000 {
            return Err(ShardError::InvalidConfiguration {
                reason: "rebalance_threshold must be between 0.0 and 1.0".to_owned(),
            });
        }
        if self.migration_batch_size == 0 {
            return Err(ShardError::InvalidConfiguration {
                reason: "migration_batch_size must be greater than 0".to_owned(),
            });
        }
        if self.gossip_interval_ms == 0 {
            return Err(ShardError::InvalidConfiguration {
                reason: "gossip_interval_ms must be greater than 0".to_owned(),
            });
        }
        if self.heartbeat_interval_ms == 0 {
            return Err(ShardError::InvalidConfiguration {
                reason: "heartbeat_interval_ms must be greater than 0".to_owned(),
            });
        }
        if self.max_migration_memory < 1024 * 1024 {
            return Err(ShardError::InvalidConfiguration {
                reason: "max_migration_memory should be at least 1MB".to_owned(),
            });
        }
        Ok(())
    }

    /// The migration timeout as a `Duration`.
    pub fn migration_timeout(&self) -> (res: Duration)
        ensures
            res == millis_duration(self.migration_timeout_ms),
    {
        duration_from_millis(self.migration_timeout_ms)
    }

    /// The gossip interval as a `Duration`.
    pub fn gossip_interval(&self) -> (res: Duration)
        ensures
            res == millis_duration(self.gossip_interval_ms),
    {
        duration_from_millis(self.gossip_interval_ms)
    }

    /// The failure detection timeout as a `Duration`.
    pub fn failure_detection_timeout(&self) -> (res: Duration)
        ensures
            res == millis_duration(self.failure_detection_timeout_ms),
    {
        duration_from_millis(self.failure_detection_timeout_ms)
    }

    /// The heartbeat interval as a `Duration`.
    pub fn heartbeat_interval(&self) -> (res: Duration)
        ensures
            res == millis_duration(self.heartbeat_interval_ms),
    {
        duration_from_millis(self.heartbeat_interval_ms)
    }

    /// The metrics interval as a `Duration`.
    pub fn metrics_interval(&self) -> (res: Duration)
        ensures
            res == millis_duration(self.metrics_interval_ms),
    {
        duration_from_millis(self.metrics_interval_ms)
    }
}

/// Builds a `ShardConfig` from the defaults, one setting at a time, and
/// validates it at the end.
#[derive(Debug)]
pub struct ShardConfigBuilder {
    config: ShardConfig,
}

impl View for ShardConfigBuilder {
    type V = ShardConfig;

    closed spec fn view(&self) -> ShardConfig {
        self.config
    }
}

impl Default for ShardConfigBuilder {
    fn default() -> (res: Self)
        ensures
            res@ == ShardConfig::default_spec(),
    {
        Self::new()
    }
}

impl ShardConfigBuilder {
    /// A builder holding the default configuration.
    pub fn new() -> (res: Self)
        ensures
            res@ == ShardConfig::default_spec(),
    {
        ShardConfigBuilder { config: ShardConfig::default() }
    }

    pub fn virtual_nodes(self, virtual_nodes: usize) -> (res: Self)
        ensures
            res@ == (ShardConfig { virtual_nodes, ..self@ }),
    {
        let mut b = self;
        b.config.virtual_nodes = virtual_nodes;
        b
    }

    pub fn replication_factor(self, replication_factor: usize) -> (res: Self)
        ensures
            res@ == (ShardConfig { replication_factor, ..self@ }),
    {
        let mut b = self;
        b.config.replication_factor = replication_factor;
        b
    }

    pub fn migration_timeout_ms(self, timeout_ms: u64) -> (res: Self)
        ensures
            res@ == (ShardConfig { migration_timeout_ms: timeout_ms, ..self@ }),
    {
        let mut b = self;
        b.config.migration_timeout_ms = timeout_ms;
        b
    }

    pub fn max_concurrent_migrations(self, max_migrations: usize) -> (res: Self)
        ensures
            res@ == (ShardConfig { max_concurrent_migrations: max_migrations, ..self@ }),
    {
        let mut b = self;
        b.config.max_concurrent_migrations = max_migrations;
        b
    }

    pub fn hash_function(self, hash_function: HashFunctionType) -> (res: Self)
        ensures
            res@ == (ShardConfig { hash_function, ..self@ }),
    {
        let mut b = self;
        b.config.hash_function = hash_function;
        b
    }

    pub fn auto_rebalance(self, enabled: bool) -> (res: Self)
        ensures
            res@ == (ShardConfig { auto_rebalance: enabled, ..self@ }),
    {
        let mut b = self;
        b.config.auto_rebalance = enabled;
        b
    }

    /// Sets the rebalance threshold, in thousandths.
    pub fn rebalance_threshold_permille(self, threshold: u32) -> (res: Self)
        ensures
            res@ == (ShardConfig { rebalance_threshold_permille: threshold, ..self@ }),
    {
        let mut b = self;
        b.config.rebalance_threshold_permille = threshold;
        b
    }

    pub fn migration_batch_size(self, batch_size: usize) -> (res: Self)
        ensures
            res@ == (ShardConfig { migration_batch_size: batch_size, ..self@ }),
    {
        let mut b = self;
        b.config.migration_batch_size = batch_size;
        b
    }

    pub fn gossip_interval_ms(self, interval_ms: u64) -> (res: Self)
        ensures
            res@ == (ShardConfig { gossip_interval_ms: interval_ms, ..self@ }),
    {
        let mut b = self;
        b.config.gossip_interval_ms = interval_ms;
        b
    }

    pub fn failure_detection_timeout_ms(self, timeout_ms: u64) -> (res: Self)
        ensures
            res@ == (ShardConfig { failure_detection_timeout_ms: timeout_ms, ..self@ }),
    {
        let mut b = self;
        b.config.failure_detection_timeout_ms = timeout_ms;
        b
    }

    pub fn heartbeat_interval_ms(self, interval_ms: u64) -> (res: Self)
        ensures
            res@ == (ShardConfig { heartbeat_interval_ms: interval_ms, ..self@ }),
    {
        let mut b = self;
        b.config.heartbeat_interval_ms = interval_ms;
        b
    }

    pub fn enable_compression(self, enabled: bool) -> (res: Self)
        ensures
            res@ == (ShardConfig { enable_compression: enabled, ..self@ }),
    {
        let mut b = self;
        b.config.enable_compression = enabled;
        b
    }

    pub fn enable_checksums(self, enabled: bool) -> (res: Self)
        ensures
            res@ == (ShardConfig { enable_checksums: enabled, ..self@ }),
    {
        let mut b = self;
        b.config.enable_checksums = enabled;
        b
    }

    pub fn max_migration_memory(self, max_memory: usize) -> (res: Self)
        ensures
            res@ == (ShardConfig { max_migration_memory: max_memory, ..self@ }),
    {
        let mut b = self;
        b.config.max_migration_memory = max_memory;
        b
    }

    pub fn metrics_interval_ms(self, interval_ms: u64) -> (res: Self)
        ensures
            res@ == (ShardConfig { metrics_interval_ms: interval_ms, ..self@ }),
    {
        let mut b = self;
        b.config.metrics_interval_ms = interval_ms;
        b
    }

    /// Validates the configuration and hands it out.
    pub fn build(self) -> (res: Result<ShardConfig, ShardError>)
        ensures
            match shard_config_problem(self@) {
                None => res == Ok::<ShardConfig, ShardError>(self@),
                Some(msg) => res matches Err(ShardError::InvalidConfiguration { reason }) && reason@ == msg,
            },
    {
        match self.config.validate() {
            Ok(()) => Ok(self.config),
            Err(e) => Err(e),
        }
    }
}

} // verus!

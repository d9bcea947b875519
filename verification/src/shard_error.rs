//! Error values of the sharding layer and their classification.

use vstd::prelude::*;

verus! {

/// Errors raised by the hash ring, replication and migration bookkeeping.
#[derive(Debug)]
#[allow(inconsistent_fields)]
pub enum ShardError {
    InvalidConfiguration { reason: String },
    NodeNotFound { node_id: String },
    NodeAlreadyExists { node_id: String },
    InsufficientNodes { required: usize, available: usize },
    NodeUnhealthy { node_id: String, status: String },
    EmptyHashRing,
    HashFunctionError { reason: String },
    VirtualNodeCollision,
    MigrationInProgress { start: u64, end: u64 },
    MigrationFailed { reason: String },
    MigrationTimeout { timeout_ms: u64 },
    NoMigrationPlan,
    ReplicationFailed { reason: String },
    QuorumNotAchieved { actual: usize, required: usize },
    ReplicaNotFound { replica_id: String },
    InconsistentReplicas { key: String },
    NetworkError { reason: String },
    ConnectionFailed { address: String, reason: String },
    CommunicationTimeout { node_id: String },
    SerializationError { reason: String },
    DeserializationError { reason: String },
    ChecksumMismatch { expected: String, actual: String },
    DataCorruption { key: String },
    StorageCapacityExceeded { used: u64, total: u64 },
    MemoryLimitExceeded { used: usize, limit: usize },
    RateLimitExceeded { current_rate: u64, limit: u64 },
    OperationNotSupported { operation: String },
    InvalidState { reason: String },
    InternalError { reason: String },
    IoError { reason: String },
}

/// Which errors are temporary and worth retrying.
pub open spec fn spec_is_recoverable(e: &ShardError) -> bool {
    ||| e is NetworkError
    ||| e is ConnectionFailed
    ||| e is CommunicationTimeout
    ||| e is MigrationTimeout
    ||| e is QuorumNotAchieved
    ||| e is RateLimitExceeded
}

/// The metrics category name of each error.
pub open spec fn spec_category(e: &ShardError) -> Seq<char> {
    match e {
        ShardError::InvalidConfiguration { .. } => "configuration"@,
        ShardError::NodeNotFound { .. }
        | ShardError::NodeAlreadyExists { .. }
        | ShardError::InsufficientNodes { .. }
        | ShardError::NodeUnhealthy { .. } => "node"@,
        ShardError::EmptyHashRing
        | ShardError::HashFunctionError { .. }
        | ShardError::VirtualNodeCollision => "hash_ring"@,
        ShardError::MigrationInProgress { .. }
        | ShardError::MigrationFailed { .. }
        | ShardError::MigrationTimeout { .. }
        | ShardError::NoMigrationPlan => "migration"@,
        ShardError::ReplicationFailed { .. }
        | ShardError::QuorumNotAchieved { .. }
        | ShardError::ReplicaNotFound { .. }
        | ShardError::InconsistentReplicas { .. } => "replication"@,
        ShardError::NetworkError { .. }
        | ShardError::ConnectionFailed { .. }
        | ShardError::CommunicationTimeout { .. } => "network"@,
        ShardError::SerializationError { .. }
        | ShardError::DeserializationError { .. }
        | ShardError::ChecksumMismatch { .. }
        | ShardError::DataCorruption { .. } => "data"@,
        ShardError::StorageCapacityExceeded { .. }
        | ShardError::MemoryLimitExceeded { .. }
        | ShardError::RateLimitExceeded { .. } => "resource"@,
        ShardError::OperationNotSupported { .. }
        | ShardError::InvalidState { .. }
        | ShardError::InternalError { .. }
        | ShardError::IoError { .. } => "generic"@,
    }
}

impl ShardError {
    /// Whether the error is temporary (network trouble, timeouts, rate limits).
    pub fn is_recoverable(&self) -> (res: bool)
        ensures
            res == spec_is_recoverable(self),
    {
        match self {
            ShardError::NetworkError { .. }
            | ShardError::ConnectionFailed { .. }
            | ShardError::CommunicationTimeout { .. }
            | ShardError::MigrationTimeout { .. }
            | ShardError::QuorumNotAchieved { .. }
            | ShardError::RateLimitExceeded { .. } => true,
            _ => false,
        }
    }

    /// Whether the error concerns the health or presence of a node.
    pub fn is_node_error(&self) -> (res: bool)
        ensures
            res == (self is NodeNotFound || self is NodeUnhealthy || self is InsufficientNodes),
    {
        match self {
            ShardError::NodeNotFound { .. }
            | ShardError::NodeUnhealthy { .. }
            | ShardError::InsufficientNodes { .. } => true,
            _ => false,
        }
    }

    /// Whether the error concerns data integrity.
    pub fn is_data_error(&self) -> (res: bool)
        ensures
            res == (self is ChecksumMismatch || self is DataCorruption || self is InconsistentReplicas
                || self is SerializationError || self is DeserializationError),
    {
        match self {
            ShardError::ChecksumMismatch { .. }
            | ShardError::DataCorruption { .. }
            | ShardError::InconsistentReplicas { .. }
            | ShardError::SerializationError { .. }
            | ShardError::DeserializationError { .. } => true,
            _ => false,
        }
    }

    /// The category name used for metrics and monitoring.
    pub fn category(&self) -> (res: &'static str)
        ensures
            res@ == spec_category(self),
    {
        match self {
            ShardError::InvalidConfiguration { .. } => "configuration",
            ShardError::NodeNotFound { .. }
            | ShardError::NodeAlreadyExists { .. }
            | ShardError::InsufficientNodes { .. }
            | ShardError::NodeUnhealthy { .. } => "node",
            ShardError::EmptyHashRing
            | ShardError::HashFunctionError { .. }
            | ShardError::VirtualNodeCollision => "hash_ring",
            ShardError::MigrationInProgress { .. }
            | ShardError::MigrationFailed { .. }
            | ShardError::MigrationTimeout { .. }
            | ShardError::NoMigrationPlan => "migration",
            ShardError::ReplicationFailed { .. }
            | ShardError::QuorumNotAchieved { .. }
            | ShardError::ReplicaNotFound { .. }
            | ShardError::InconsistentReplicas { .. } => "replication",
            ShardError::NetworkError { .. }
            | ShardError::ConnectionFailed { .. }
            | ShardError::CommunicationTimeout { .. } => "network",
            ShardError::SerializationError { .. }
            | ShardError::DeserializationError { .. }
            | ShardError::ChecksumMismatch { .. }
            | ShardError::DataCorruption { .. } => "data",
            ShardError::StorageCapacityExceeded { .. }
            | ShardError::MemoryLimitExceeded { .. }
            | ShardError::RateLimitExceeded { .. } => "resource",
            ShardError::OperationNotSupported { .. }
            | ShardError::InvalidState { .. }
            | ShardError::InternalError { .. }
            | ShardError::IoError { .. } => "generic",
        }
    }
}

} // verus!

use std::time::Duration;

use streamsync::hash_fn::{AHashFunction, HashFunction, HashFunctionType, Sha256HashFunction, XxHashFunction, hash_with};
use streamsync::hash_ring::ConsistentHashRing;
use streamsync::migration::{Migration, MigrationPlan, MigrationStatus, ShardMigrator};
use streamsync::node::{NodeId, NodeStatus};
use streamsync::node_info::{NodeInfo, NodeMetadata};
use streamsync::peer_addr::PeerAddress;
use streamsync::replication::{ConsistencyLevel, ReplicaInfo, ReplicaStatus, ReplicationGroup, ReplicationManager, ReplicationResult};
use streamsync::shard_config::ShardConfig;
use streamsync::shard_error::ShardError;
use streamsync::virtual_node::VirtualNode;

#[test]
fn test_hash_functions() {
    let sha256 = Sha256HashFunction;
    let ahash = AHashFunction;
    let xxhash = XxHashFunction;
    let key = b"test_key";
    let sha256_hash = sha256.hash(key);
    let ahash_hash = ahash.hash(key);
    let xxhash_hash = xxhash.hash(key);
    assert_eq!(sha256.hash(key), sha256_hash);
    assert_eq!(ahash.hash(key), ahash_hash);
    assert_eq!(xxhash.hash(key), xxhash_hash);
    assert_eq!(sha256.name(), "sha256");
    assert_eq!(ahash.name(), "ahash");
    assert_eq!(xxhash.name(), "xxhash");
}

#[test]
fn sha256_position_is_the_digest_prefix() {
    // SHA-256("abc") begins with ba 78 16 bf 8f 01 cf ea.
    assert_eq!(Sha256HashFunction.hash(b"abc"), 0xba78_16bf_8f01_cfea);
    assert_eq!(hash_with(HashFunctionType::Sha256, b"abc"), 0xba78_16bf_8f01_cfea);
}

#[test]
fn test_empty_ring() {
    let ring = ConsistentHashRing::new(HashFunctionType::AHash);
    assert!(ring.is_empty());
    assert_eq!(ring.virtual_node_count(), 0);
    assert_eq!(ring.physical_node_count(), 0);
    let result = ring.get_node("test_key");
    assert!(matches!(result, Err(ShardError::EmptyHashRing)));
}

#[test]
fn test_single_node() {
    let mut ring = ConsistentHashRing::new(HashFunctionType::AHash);
    let node_id = NodeId::new("node1");
    let virtual_hashes = ring.add_node(node_id.clone(), 3).unwrap();
    assert_eq!(virtual_hashes.len(), 3);
    assert_eq!(ring.virtual_node_count(), 3);
    assert_eq!(ring.physical_node_count(), 1);
    assert_eq!(ring.get_node("key1").unwrap(), node_id);
    assert_eq!(ring.get_node("key2").unwrap(), node_id);
    assert_eq!(ring.get_node("key3").unwrap(), node_id);
}

#[test]
fn test_multiple_nodes() {
    let mut ring = ConsistentHashRing::new(HashFunctionType::AHash);
    ring.add_node(NodeId::new("node1"), 2).unwrap();
    ring.add_node(NodeId::new("node2"), 2).unwrap();
    ring.add_node(NodeId::new("node3"), 2).unwrap();
    assert_eq!(ring.virtual_node_count(), 6);
    assert_eq!(ring.physical_node_count(), 3);
    let test_keys = [
        "key1", "key2", "key3", "key4", "key5",
        "abcdef", "xyz123", "foobar", "test_data", "random_string",
        "node_alpha", "node_beta", "node_gamma",
    ];
    let mut unique_nodes: Vec<NodeId> = Vec::new();
    for key in &test_keys {
        if let Ok(node) = ring.get_node(key) {
            if !unique_nodes.contains(&node) {
                unique_nodes.push(node);
            }
        }
    }
    assert!(unique_nodes.len() > 1, "Expected distribution across multiple nodes, got {}", unique_nodes.len());
}

#[test]
fn test_replication() {
    let mut ring = ConsistentHashRing::new(HashFunctionType::AHash);
    ring.add_node(NodeId::new("node1"), 2).unwrap();
    ring.add_node(NodeId::new("node2"), 2).unwrap();
    ring.add_node(NodeId::new("node3"), 2).unwrap();
    let nodes = ring.get_nodes("test_key", 2).unwrap();
    assert_eq!(nodes.len(), 2);
    assert_ne!(nodes[0], nodes[1]);
    let nodes = ring.get_nodes("test_key", 3).unwrap();
    assert_eq!(nodes.len(), 3);
    let result = ring.get_nodes("test_key", 5);
    assert!(matches!(result, Err(ShardError::InsufficientNodes { .. })));
}

#[test]
fn replicas_start_at_the_owner() {
    let mut ring = ConsistentHashRing::new(HashFunctionType::Sha256);
    ring.add_node(NodeId::new("a"), 4).unwrap();
    ring.add_node(NodeId::new("b"), 4).unwrap();
    for key in ["k1", "k2", "k3", "k4"] {
        let owner = ring.get_node(key).unwrap();
        let replicas = ring.get_nodes(key, 2).unwrap();
        assert_eq!(replicas[0], owner);
    }
}

#[test]
fn test_node_removal() {
    let mut ring = ConsistentHashRing::new(HashFunctionType::AHash);
    let node1 = NodeId::new("node1");
    let node2 = NodeId::new("node2");
    ring.add_node(node1.clone(), 3).unwrap();
    ring.add_node(node2.clone(), 3).unwrap();
    assert_eq!(ring.physical_node_count(), 2);
    let removed_hashes = ring.remove_node(&node1).unwrap();
    assert_eq!(removed_hashes.len(), 3);
    assert_eq!(ring.physical_node_count(), 1);
    let node3 = NodeId::new("node3");
    let result = ring.remove_node(&node3);
    assert!(matches!(result, Err(ShardError::NodeNotFound { .. })));
}

#[test]
fn test_node_ranges() {
    let mut ring = ConsistentHashRing::new(HashFunctionType::AHash);
    let node1 = NodeId::new("node1");
    ring.add_node(node1.clone(), 2).unwrap();
    let ranges = ring.get_node_ranges(&node1);
    assert_eq!(ranges.len(), 2);
    for (start, end) in ranges {
        assert!(start != end, "Range start and end should not be equal");
    }
}

#[test]
fn test_affected_ranges() {
    let mut ring = ConsistentHashRing::new(HashFunctionType::AHash);
    let node1 = NodeId::new("node1");
    ring.add_node(node1, 2).unwrap();
    let new_positions = vec![100, 200];
    let ranges = ring.get_affected_ranges(&new_positions);
    assert_eq!(ranges.len(), 2);
}

#[test]
fn test_ring_balance() {
    let mut ring = ConsistentHashRing::new(HashFunctionType::AHash);
    ring.add_node(NodeId::new("node1"), 5).unwrap();
    ring.add_node(NodeId::new("node2"), 5).unwrap();
    assert!(ring.is_balanced(500));
    ring.add_node(NodeId::new("node3"), 1).unwrap();
    assert!(!ring.is_balanced(100));
}

#[test]
fn balance_threshold_is_exact() {
    // Shares 3 and 1 of 4 over two nodes: each deviates by half the mean.
    let mut ring = ConsistentHashRing::new(HashFunctionType::Sha256);
    ring.add_node(NodeId::new("x"), 3).unwrap();
    ring.add_node(NodeId::new("y"), 1).unwrap();
    assert!(ring.is_balanced(500));
    assert!(!ring.is_balanced(499));
    assert!(ConsistentHashRing::new(HashFunctionType::Sha256).is_balanced(0));
}

#[test]
fn test_node_distribution() {
    let mut ring = ConsistentHashRing::new(HashFunctionType::AHash);
    let node1 = NodeId::new("node1");
    let node2 = NodeId::new("node2");
    ring.add_node(node1.clone(), 3).unwrap();
    ring.add_node(node2.clone(), 2).unwrap();
    let distribution = ring.get_node_distribution();
    assert_eq!(distribution.len(), 2);
    let count_of = |id: &NodeId| distribution.iter().find(|(n, _)| n == id).map(|(_, c)| *c);
    assert_eq!(count_of(&node1), Some(3));
    assert_eq!(count_of(&node2), Some(2));
}

#[test]
fn test_virtual_node_collision() {
    let mut ring = ConsistentHashRing::new(HashFunctionType::AHash);
    let node1 = NodeId::new("node1");
    let result = ring.add_node(node1, 1000);
    assert!(result.is_ok() || matches!(result, Err(ShardError::VirtualNodeCollision)));
}

#[test]
fn zero_virtual_nodes_are_refused() {
    let mut ring = ConsistentHashRing::new(HashFunctionType::AHash);
    let result = ring.add_node(NodeId::new("node1"), 0);
    assert!(matches!(result, Err(ShardError::InvalidConfiguration { .. })));
    assert!(ring.is_empty());
}

#[test]
fn test_deterministic_hashing() {
    let key = "test_key";
    let hash1 = hash_with(HashFunctionType::AHash, key.as_bytes());
    let hash2 = hash_with(HashFunctionType::AHash, key.as_bytes());
    assert_eq!(hash1, hash2);
}

#[test]
fn add_then_remove_restores_the_ring() {
    let mut ring = ConsistentHashRing::new(HashFunctionType::Sha256);
    ring.add_node(NodeId::new("a"), 5).unwrap();
    let before: Vec<(u64, String)> = ring.virtual_nodes().iter().map(|v| (v.hash, v.node_id.as_str().to_string())).collect();
    ring.add_node(NodeId::new("b"), 5).unwrap();
    ring.remove_node(&NodeId::new("b")).unwrap();
    let after: Vec<(u64, String)> = ring.virtual_nodes().iter().map(|v| (v.hash, v.node_id.as_str().to_string())).collect();
    assert_eq!(before, after);
}

#[test]
fn test_default_config() {
    let config = ShardConfig::default();
    assert!(config.validate().is_ok());
    assert_eq!(config.virtual_nodes, 150);
    assert_eq!(config.replication_factor, 3);
    assert_eq!(config.hash_function, HashFunctionType::AHash);
    assert!(config.auto_rebalance);
}

#[test]
fn test_test_config() {
    let config = ShardConfig::test_config();
    assert!(config.validate().is_ok());
    assert_eq!(config.virtual_nodes, 10);
    assert_eq!(config.replication_factor, 1);
    assert!(!config.auto_rebalance);
}

#[test]
fn test_config_builder() {
    let config = ShardConfig::builder()
        .virtual_nodes(100)
        .replication_factor(2)
        .migration_timeout_ms(5000)
        .hash_function(HashFunctionType::Sha256)
        .auto_rebalance(false)
        .build()
        .unwrap();
    assert_eq!(config.virtual_nodes, 100);
    assert_eq!(config.replication_factor, 2);
    assert_eq!(config.migration_timeout_ms, 5000);
    assert_eq!(config.hash_function, HashFunctionType::Sha256);
    assert!(!config.auto_rebalance);
}

#[test]
fn test_invalid_configurations() {
    assert!(ShardConfig::builder().virtual_nodes(0).build().is_err());
    assert!(ShardConfig::builder().replication_factor(0).build().is_err());
    assert!(ShardConfig::builder().migration_timeout_ms(500).build().is_err());
    assert!(ShardConfig::builder().rebalance_threshold_permille(1500).build().is_err());
    assert!(ShardConfig::builder().migration_batch_size(0).build().is_err());
}

#[test]
fn invalid_configuration_messages() {
    match ShardConfig::builder().virtual_nodes(0).build() {
        Err(ShardError::InvalidConfiguration { reason }) => assert_eq!(reason, "virtual_nodes must be greater than 0"),
        other => panic!("unexpected {:?}", other),
    }
    match ShardConfig::builder().rebalance_threshold_permille(1001).build() {
        Err(ShardError::InvalidConfiguration { reason }) => assert_eq!(reason, "rebalance_threshold must be between 0.0 and 1.0"),
        other => panic!("unexpected {:?}", other),
    }
    assert!(ShardConfig::builder().rebalance_threshold_permille(1000).build().is_ok());
}

#[test]
fn test_duration_conversions() {
    let config = ShardConfig::default();
    assert_eq!(config.migration_timeout(), Duration::from_millis(30_000));
    assert_eq!(config.gossip_interval(), Duration::from_millis(1_000));
    assert_eq!(config.failure_detection_timeout(), Duration::from_millis(10_000));
    assert_eq!(config.heartbeat_interval(), Duration::from_millis(5_000));
    assert_eq!(config.metrics_interval(), Duration::from_millis(10_000));
}

#[test]
fn test_error_categorization() {
    let config_error = ShardError::InvalidConfiguration { reason: "test".to_string() };
    assert_eq!(config_error.category(), "configuration");
    assert!(!config_error.is_recoverable());
    let network_error = ShardError::NetworkError { reason: "test".to_string() };
    assert_eq!(network_error.category(), "network");
    assert!(network_error.is_recoverable());
    let node_error = ShardError::NodeNotFound { node_id: "test".to_string() };
    assert_eq!(node_error.category(), "node");
    assert!(node_error.is_node_error());
    let data_error = ShardError::DataCorruption { key: "test".to_string() };
    assert_eq!(data_error.category(), "data");
    assert!(data_error.is_data_error());
}

#[test]
fn test_error_recovery_classification() {
    let recoverable_errors = vec![
        ShardError::NetworkError { reason: "test".to_string() },
        ShardError::CommunicationTimeout { node_id: "test".to_string() },
        ShardError::QuorumNotAchieved { actual: 1, required: 2 },
    ];
    for error in recoverable_errors {
        assert!(error.is_recoverable(), "Error should be recoverable: {:?}", error);
    }
    let non_recoverable_errors = vec![
        ShardError::InvalidConfiguration { reason: "test".to_string() },
        ShardError::DataCorruption { key: "test".to_string() },
        ShardError::VirtualNodeCollision,
    ];
    for error in non_recoverable_errors {
        assert!(!error.is_recoverable(), "Error should not be recoverable: {:?}", error);
    }
}

#[test]
fn test_node_id_creation() {
    let id1 = NodeId::new("test-node");
    let id2 = NodeId::from("test-node");
    let id3 = NodeId::random();
    assert_eq!(id1, id2);
    assert_eq!(id1.as_str(), "test-node");
    assert_ne!(id1, id3);
    assert_eq!(id1.to_string(), "test-node");
}

#[test]
fn test_node_status() {
    assert!(NodeStatus::Healthy.is_available());
    assert!(NodeStatus::Degraded.is_available());
    assert!(!NodeStatus::Failed.is_available());
    assert!(!NodeStatus::Unavailable.is_available());
    assert!(NodeStatus::Healthy.can_participate());
    assert!(!NodeStatus::Degraded.can_participate());
    assert!(!NodeStatus::Failed.can_participate());
}

#[test]
fn test_node_info_creation() {
    let id = NodeId::new("test-node");
    let addr = PeerAddress::v4(127, 0, 0, 1, 8080);
    let node = NodeInfo::new(id.clone(), addr, 1_000);
    assert_eq!(node.id, id);
    assert_eq!(node.address, addr);
    assert_eq!(node.status, NodeStatus::Joining);
    assert!(node.virtual_nodes.is_empty());
}

#[test]
fn test_node_heartbeat() {
    let mut node = NodeInfo::new(NodeId::new("test-node"), PeerAddress::v4(127, 0, 0, 1, 8080), 1_000);
    assert_eq!(node.status, NodeStatus::Joining);
    node.update_heartbeat(1_010);
    assert_eq!(node.status, NodeStatus::Healthy);
    assert!(node.time_since_heartbeat(1_020).unwrap() < 50);
    assert!(node.time_since_heartbeat(1_000).is_err());
    assert_eq!(node.uptime(1_500).unwrap(), 500);
}

#[test]
fn test_node_failure_detection() {
    let node = NodeInfo::new(NodeId::new("test-node"), PeerAddress::v4(127, 0, 0, 1, 8080), 10_000);
    assert!(!node.is_failed(10_000, 1_000));
    assert!(node.is_failed(12_000, 1_000));
    assert!(node.is_failed(9_000, 1_000));
}

#[test]
fn test_virtual_node_management() {
    let id = NodeId::new("test-node");
    let mut node = NodeInfo::new(id.clone(), PeerAddress::v4(127, 0, 0, 1, 8080), 0);
    node.add_virtual_node(VirtualNode::new(100, id.clone(), 0));
    node.add_virtual_node(VirtualNode::new(200, id.clone(), 1));
    assert_eq!(node.virtual_nodes.len(), 2);
    assert_eq!(node.virtual_node_hashes(), vec![100, 200]);
    assert!(node.remove_virtual_node(100));
    assert_eq!(node.virtual_nodes.len(), 1);
    assert!(!node.remove_virtual_node(300));
}

#[test]
fn test_node_metadata() {
    let metadata = NodeMetadata::default()
        .with_version("1.0.0")
        .with_region("us-west-2")
        .with_storage_capacity(1_000_000)
        .with_custom("environment", "production");
    assert_eq!(metadata.version, Some("1.0.0".to_string()));
    assert_eq!(metadata.region, Some("us-west-2".to_string()));
    assert_eq!(metadata.storage_capacity, Some(1_000_000));
    let env = metadata.custom.iter().find(|(k, _)| k == "environment").map(|(_, v)| v.clone());
    assert_eq!(env, Some("production".to_string()));
}

#[test]
fn custom_metadata_keeps_one_value_per_key() {
    let metadata = NodeMetadata::default()
        .with_custom("tier", "gold")
        .with_custom("zone", "a")
        .with_custom("tier", "silver");
    assert_eq!(metadata.custom.len(), 2);
    assert_eq!(metadata.custom[0], ("tier".to_string(), "silver".to_string()));
    assert_eq!(metadata.custom[1], ("zone".to_string(), "a".to_string()));
}

#[test]
fn test_virtual_node_ordering() {
    let id = NodeId::new("test");
    let vnode1 = VirtualNode::new(100, id.clone(), 0);
    let vnode2 = VirtualNode::new(200, id.clone(), 1);
    let vnode3 = VirtualNode::new(100, id, 2);
    assert!(vnode1 < vnode2);
    assert_eq!(vnode1, vnode3);
}

#[test]
fn test_migration_creation() {
    let source = NodeId::new("source");
    let dest = NodeId::new("dest");
    let migration = Migration::new((100, 200), source.clone(), dest.clone());
    assert_eq!(migration.range, (100, 200));
    assert_eq!(migration.source_node, source);
    assert_eq!(migration.destination_node, dest);
    assert_eq!(migration.status, MigrationStatus::Planned);
    assert_eq!(migration.keys_migrated, 0);
    assert!(migration.total_keys.is_none());
}

#[test]
fn test_migration_lifecycle() {
    let mut migration = Migration::new((100, 200), NodeId::new("source"), NodeId::new("dest"));
    migration.start();
    assert_eq!(migration.status, MigrationStatus::InProgress);
    assert!(migration.started_at.is_some());
    assert!(migration.is_active());
    assert!(!migration.is_finished());
    migration.update_progress(50, Some(100));
    assert_eq!(migration.keys_migrated, 50);
    assert_eq!(migration.total_keys, Some(100));
    let progress = migration.progress_parts().map(|(done, total)| done as f64 / total as f64);
    assert_eq!(progress, Some(0.5));
    migration.complete();
    assert_eq!(migration.status, MigrationStatus::Completed);
    assert!(migration.completed_at.is_some());
    assert!(!migration.is_active());
    assert!(migration.is_finished());
    assert!(migration.duration().is_some());
}

#[test]
fn test_migration_failure() {
    let mut migration = Migration::new((100, 200), NodeId::new("source"), NodeId::new("dest"));
    migration.start();
    migration.fail("Test error".to_string());
    assert_eq!(migration.status, MigrationStatus::Failed);
    assert_eq!(migration.error_message, Some("Test error".to_string()));
    assert!(migration.is_finished());
}

#[test]
fn test_migration_plan() {
    let source = NodeId::new("source");
    let dest = NodeId::new("dest");
    let migration1 = Migration::new((100, 200), source.clone(), dest.clone());
    let migration2 = Migration::new((300, 400), source, dest);
    let plan = MigrationPlan::new(vec![migration1, migration2]).with_priority(5);
    assert_eq!(plan.migration_count(), 2);
    assert!(!plan.is_empty());
    assert_eq!(plan.priority, 5);
    assert_eq!(plan.estimated_duration, Duration::from_secs(120));
}

#[test]
fn test_migrator_creation() {
    let migrator = ShardMigrator::new();
    assert!(migrator.get_active_migrations().is_empty());
    let stats = migrator.get_migration_counts();
    assert_eq!(stats.active_count, 0);
    assert_eq!(stats.completed_count, 0);
}

#[test]
fn test_range_migration_planning() {
    let mut migrator = ShardMigrator::new();
    let source_node = NodeId::new("source");
    let migration_id = migrator.plan_range_migration(100, 200, source_node.clone());
    let migration = migrator.get_migration(&migration_id).unwrap();
    assert_eq!(migration.range, (100, 200));
    assert_eq!(migration.source_node, source_node);
    assert_eq!(migration.status, MigrationStatus::Planned);
    assert_eq!(migrator.get_active_migrations().len(), 1);
}

#[test]
fn test_migration_cancellation() {
    let mut migrator = ShardMigrator::new();
    let migration_id = migrator.plan_range_migration(100, 200, NodeId::new("source"));
    assert!(migrator.cancel_migration(&migration_id).is_ok());
    assert!(migrator.get_active_migrations().is_empty());
    let migration = migrator.get_migration(&migration_id).unwrap();
    assert_eq!(migration.status, MigrationStatus::Cancelled);
    assert!(migrator.cancel_migration(&migration_id).is_err());
}

#[test]
fn test_replica_info() {
    let node_id = NodeId::new("test-node");
    let mut replica = ReplicaInfo::new(node_id.clone());
    assert_eq!(replica.node_id, node_id);
    assert_eq!(replica.status, ReplicaStatus::Syncing);
    assert_eq!(replica.operations_applied, 0);
    replica.update_sync(100, 500);
    assert_eq!(replica.operations_applied, 100);
    assert_eq!(replica.lag_ms, 500);
    assert_eq!(replica.status, ReplicaStatus::Healthy);
    replica.update_sync(200, 15000);
    assert_eq!(replica.status, ReplicaStatus::Failed);
}

#[test]
fn test_replication_group() {
    let primary_node = NodeId::new("primary");
    let secondary1 = NodeId::new("secondary1");
    let secondary2 = NodeId::new("secondary2");
    let mut group = ReplicationGroup::new((100, 200), primary_node.clone(), 3);
    assert_eq!(group.range, (100, 200));
    assert_eq!(group.primary.node_id, primary_node);
    assert_eq!(group.replication_factor, 3);
    assert!(!group.is_fully_replicated());
    assert!(group.add_secondary(secondary1.clone()).is_ok());
    assert!(group.add_secondary(secondary2.clone()).is_ok());
    assert!(group.is_fully_replicated());
    group.primary.status = ReplicaStatus::Healthy;
    for secondary in &mut group.secondaries {
        secondary.status = ReplicaStatus::Healthy;
    }
    assert!(group.add_secondary(secondary1).is_err());
    assert!(group.has_quorum());
    assert_eq!(group.quorum_size(), 2);
    let replica_id = group.secondaries[0].id.clone();
    assert!(group.promote_secondary(&replica_id).is_ok());
    assert_eq!(group.secondaries.len(), 2);
}

#[test]
fn test_replication_manager() {
    let mut manager = ReplicationManager::new(3);
    let primary = NodeId::new("primary");
    let secondary = NodeId::new("secondary");
    let range = (100, 200);
    assert!(manager.create_replication_group(range, primary.clone(), vec![secondary.clone()]).is_ok());
    let group = manager.get_replication_group(&range).unwrap();
    assert_eq!(group.primary.node_id, primary);
    assert_eq!(group.secondaries.len(), 1);
    assert!(manager.add_replica(range, NodeId::new("node3")).is_ok());
    let health = manager.check_replication_health();
    assert_eq!(health.total_groups, 1);
}

#[test]
fn test_consistency_levels() {
    let levels = [
        ConsistencyLevel::Strong,
        ConsistencyLevel::Eventual,
        ConsistencyLevel::Quorum,
        ConsistencyLevel::All,
    ];
    for level in levels {
        let _ = level;
    }
}

#[test]
fn test_replication_result() {
    let result = ReplicationResult {
        successful: 2,
        failed: 1,
        successful_nodes: vec![NodeId::new("node1"), NodeId::new("node2")],
        failed_nodes: vec![NodeId::new("node3")],
    };
    assert!(result.has_quorum(2));
    assert!(!result.has_quorum(3));
    assert!(!result.is_unanimous());
    let unanimous_result = ReplicationResult {
        successful: 3,
        failed: 0,
        successful_nodes: vec![NodeId::new("node1"), NodeId::new("node2"), NodeId::new("node3")],
        failed_nodes: vec![],
    };
    assert!(unanimous_result.is_unanimous());
}

#[test]
fn replicated_operations_without_group_or_healthy_replicas() {
    let mut manager = ReplicationManager::new(3);
    match manager.replicated_write("k", b"v", ConsistencyLevel::Eventual) {
        Err(ShardError::InvalidState { reason }) => assert_eq!(reason, "No replication group found for key: k"),
        other => panic!("unexpected {:?}", other),
    }
    manager.create_replication_group((0, u64::MAX), NodeId::new("p"), vec![NodeId::new("s")]).unwrap();
    match manager.replicated_read("k", ConsistencyLevel::Eventual) {
        Err(ShardError::ReplicationFailed { reason }) => assert_eq!(reason, "No healthy replicas available for read"),
        other => panic!("unexpected {:?}", other),
    }
    match manager.replicated_write("k", b"v", ConsistencyLevel::Quorum) {
        Err(ShardError::QuorumNotAchieved { actual, required }) => {
            assert_eq!(actual, 0);
            assert_eq!(required, 2);
        },
        other => panic!("unexpected {:?}", other),
    }
    let all = manager.replicated_write("k", b"v", ConsistencyLevel::All).unwrap();
    assert_eq!(all.successful, 0);
    assert_eq!(all.failed, 0);
    match manager.replicated_write("k", b"v", ConsistencyLevel::Strong) {
        Ok(r) => {
            assert_eq!(r.successful, 1);
            assert_eq!(r.successful_nodes, vec![NodeId::new("p")]);
        },
        Err(ShardError::ReplicationFailed { reason }) => assert_eq!(reason, "Primary write failed"),
        other => panic!("unexpected {:?}", other),
    }
}

#[test]
fn migration_plans_run_one_at_a_time() {
    let mut migrator = ShardMigrator::new();
    let empty = MigrationPlan::new(vec![]);
    assert_eq!(migrator.begin_plan(&empty).unwrap(), false);
    let plan = MigrationPlan::new(vec![Migration::new((0, 10), NodeId::new("a"), NodeId::new("b"))]);
    assert_eq!(migrator.begin_plan(&plan).unwrap(), true);
    match migrator.begin_plan(&plan) {
        Err(ShardError::MigrationInProgress { start, end }) => {
            assert_eq!(start, 0);
            assert_eq!(end, u64::MAX);
        },
        other => panic!("unexpected {:?}", other),
    }
    match migrator.finish_plan(2) {
        Err(ShardError::MigrationFailed { reason }) => assert_eq!(reason, "2 migrations failed"),
        other => panic!("unexpected {:?}", other),
    }
    assert_eq!(migrator.begin_plan(&plan).unwrap(), true);
    assert!(migrator.finish_plan(0).is_ok());
}

#[test]
fn migrations_advance_in_batches() {
    let mut m = Migration::new((0, 10), NodeId::new("a"), NodeId::new("b"));
    let mut batch = 0u64;
    let mut done = false;
    while !done {
        done = m.migrate_batch(1000, 300, batch);
        batch += 1;
    }
    assert_eq!(batch, 4);
    assert_eq!(m.keys_migrated, 1000);
    assert_eq!(m.total_keys, Some(1000));
}

#[test]
fn ring_restores_from_its_virtual_nodes() {
    let mut ring = ConsistentHashRing::new(HashFunctionType::Sha256);
    ring.add_node(NodeId::new("a"), 5).unwrap();
    ring.add_node(NodeId::new("b"), 5).unwrap();
    let nodes: Vec<VirtualNode> = ring.virtual_nodes().into_iter().cloned().collect();
    let restored = ConsistentHashRing::restore(HashFunctionType::Sha256, nodes);
    assert_eq!(restored.virtual_node_count(), 10);
    assert_eq!(restored.get_node("some-key").unwrap(), ring.get_node("some-key").unwrap());
    let dup = vec![VirtualNode::new(5, NodeId::new("x"), 0), VirtualNode::new(5, NodeId::new("y"), 1), VirtualNode::new(1, NodeId::new("z"), 0)];
    let small = ConsistentHashRing::restore(HashFunctionType::Sha256, dup);
    let order: Vec<u64> = small.virtual_nodes().iter().map(|v| v.hash).collect();
    assert_eq!(order, vec![1, 5]);
    assert_eq!(small.get_node_for_hash(3).unwrap(), NodeId::new("y"));
}

#[test]
fn placing_stops_at_the_first_clash() {
    let mut ring = ConsistentHashRing::new(HashFunctionType::Sha256);
    assert_eq!(ring.place_node(NodeId::new("a"), &vec![10, 20]).unwrap(), vec![10, 20]);
    assert_eq!(ring.virtual_node_count(), 2);
    let clash = ring.place_node(NodeId::new("b"), &vec![5, 20, 30]);
    assert!(matches!(clash, Err(ShardError::VirtualNodeCollision)));
    let owners: Vec<(u64, String)> = ring.virtual_nodes().iter().map(|v| (v.hash, v.node_id.as_str().to_string())).collect();
    assert_eq!(owners, vec![(5, "b".to_string()), (10, "a".to_string()), (20, "a".to_string())]);
    let repeated = ring.place_node(NodeId::new("c"), &vec![7, 7]);
    assert!(matches!(repeated, Err(ShardError::VirtualNodeCollision)));
    assert_eq!(ring.virtual_node_count(), 4);
    assert_eq!(ring.get_node_for_hash(6).unwrap(), NodeId::new("c"));
}

#[test]
fn sha256_rings_place_nodes_at_their_digests() {
    let mut ring = ConsistentHashRing::new(HashFunctionType::Sha256);
    let hashes = ring.add_node(NodeId::new("node1"), 4).unwrap();
    let expected: Vec<u64> = (0..4).map(|i| hash_with(HashFunctionType::Sha256, format!("node1:{}", i).as_bytes())).collect();
    assert_eq!(hashes, expected);
    assert_eq!(ring.virtual_node_count(), 4);
}

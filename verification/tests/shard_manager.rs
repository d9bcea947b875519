use std::time::Duration;

use streamsync::node::{NodeId, NodeStatus};
use streamsync::peer_addr::PeerAddress;
use streamsync::shard_config::ShardConfig;
use streamsync::shard_error::ShardError;
use streamsync::shard_manager::{status_text, ShardManager};
use streamsync::shard_metrics::{ClusterStats, ShardMetrics};

fn addr(port: u16) -> PeerAddress {
    PeerAddress::v4(127, 0, 0, 1, port)
}

#[test]
fn test_shard_manager_creation() {
    let manager = ShardManager::new(ShardConfig::test_config(), 0);
    assert!(!manager.is_running());
    let stats = manager.get_cluster_stats();
    assert_eq!(stats.total_nodes, 0);
    assert_eq!(stats.virtual_nodes, 0);
}

#[test]
fn test_start_stop() {
    let mut manager = ShardManager::new(ShardConfig::test_config(), 0);
    assert!(manager.start().is_ok());
    assert!(manager.is_running());
    assert!(manager.start().is_err());
    assert!(manager.stop().is_ok());
    assert!(!manager.is_running());
    assert!(manager.stop().is_err());
}

#[test]
fn start_twice_reports_the_state() {
    let mut manager = ShardManager::new(ShardConfig::test_config(), 0);
    manager.start().unwrap();
    match manager.start() {
        Err(ShardError::InvalidState { reason }) => assert_eq!(reason, "Shard manager is already running"),
        other => panic!("unexpected {:?}", other),
    }
}

#[test]
fn test_add_remove_nodes() {
    let mut manager = ShardManager::new(ShardConfig::test_config(), 0);
    let node1 = NodeId::new("node1");
    assert!(manager.add_node(node1.clone(), addr(8080), 1).is_ok());
    let stats = manager.get_cluster_stats();
    assert_eq!(stats.total_nodes, 1);
    assert!(stats.virtual_nodes > 0);
    assert!(matches!(manager.add_node(node1.clone(), addr(8080), 2), Err(ShardError::NodeAlreadyExists { .. })));
    assert!(manager.remove_node(&node1, 3).is_ok());
    let stats = manager.get_cluster_stats();
    assert_eq!(stats.total_nodes, 0);
    assert_eq!(stats.virtual_nodes, 0);
    let node2 = NodeId::new("node2");
    assert!(matches!(manager.remove_node(&node2, 4), Err(ShardError::NodeNotFound { .. })));
}

#[test]
fn removing_a_node_plans_its_ranges() {
    let mut manager = ShardManager::new(ShardConfig::test_config(), 0);
    let node1 = NodeId::new("node1");
    manager.add_node(node1.clone(), addr(8080), 1).unwrap();
    manager.add_node(NodeId::new("node2"), addr(8081), 1).unwrap();
    manager.remove_node(&node1, 2).unwrap();
    let stats = manager.get_cluster_stats();
    assert_eq!(stats.total_nodes, 1);
    assert_eq!(stats.virtual_nodes, 10);
    assert_eq!(manager.get_metrics().get_snapshot().node_operations.nodes_removed, 1);
    assert_eq!(manager.get_metrics().get_snapshot().node_operations.nodes_added, 2);
}

#[test]
fn test_key_routing() {
    let mut manager = ShardManager::new(ShardConfig::test_config(), 0);
    let node1 = NodeId::new("node1");
    let node2 = NodeId::new("node2");
    manager.add_node(node1.clone(), addr(8080), 1).unwrap();
    manager.add_node(node2.clone(), addr(8081), 1).unwrap();
    manager.process_heartbeat(&node1, 2).unwrap();
    manager.process_heartbeat(&node2, 2).unwrap();
    let responsible_nodes = manager.get_responsible_nodes("test_key");
    assert!(!responsible_nodes.is_empty());
    let primary_node = manager.get_primary_node("test_key").unwrap();
    assert!(responsible_nodes.contains(&primary_node));
}

#[test]
fn unhealthy_primary_is_named() {
    let mut manager = ShardManager::new(ShardConfig::test_config(), 0);
    let node1 = NodeId::new("node1");
    manager.add_node(node1.clone(), addr(8080), 1).unwrap();
    // Still joining: the only replica does not serve.
    match manager.get_primary_node("any") {
        Err(ShardError::NodeUnhealthy { node_id, status }) => {
            assert_eq!(node_id, "node1");
            assert_eq!(status, "Joining");
        },
        other => panic!("unexpected {:?}", other),
    }
    assert!(matches!(ShardManager::new(ShardConfig::test_config(), 0).get_primary_node("k"), Err(ShardError::EmptyHashRing)));
}

#[test]
fn status_names() {
    assert_eq!(status_text(NodeStatus::Degraded), "Degraded");
    assert_eq!(status_text(NodeStatus::Leaving), "Leaving");
}

#[test]
fn test_node_status_updates() {
    let mut manager = ShardManager::new(ShardConfig::test_config(), 0);
    let node1 = NodeId::new("node1");
    manager.add_node(node1.clone(), addr(8080), 1).unwrap();
    assert!(manager.update_node_status(&node1, NodeStatus::Degraded, 2).is_ok());
    let node_info = manager.get_node(&node1).unwrap();
    assert_eq!(node_info.status, NodeStatus::Degraded);
    let node2 = NodeId::new("node2");
    assert!(manager.update_node_status(&node2, NodeStatus::Healthy, 3).is_err());
}

#[test]
fn test_heartbeat_processing() {
    let mut manager = ShardManager::new(ShardConfig::test_config(), 0);
    let node1 = NodeId::new("node1");
    manager.add_node(node1.clone(), addr(8080), 100).unwrap();
    let before = manager.get_node(&node1).unwrap();
    assert!(manager.process_heartbeat(&node1, 110).is_ok());
    let after = manager.get_node(&node1).unwrap();
    assert!(after.last_heartbeat_ms > before.last_heartbeat_ms);
    assert_eq!(after.status, NodeStatus::Healthy);
}

#[test]
fn failure_detection_lists_silent_nodes() {
    let mut manager = ShardManager::new(ShardConfig::test_config(), 0);
    let node1 = NodeId::new("node1");
    let node2 = NodeId::new("node2");
    manager.add_node(node1.clone(), addr(8080), 0).unwrap();
    manager.add_node(node2.clone(), addr(8081), 0).unwrap();
    let timeout = ShardConfig::test_config().failure_detection_timeout_ms;
    manager.process_heartbeat(&node2, timeout).unwrap();
    let failed = manager.detect_failed_nodes(timeout + 1);
    assert_eq!(failed, vec![node1.clone()]);
    manager.update_node_status(&node1, NodeStatus::Failed, timeout + 1).unwrap();
    assert!(manager.detect_failed_nodes(timeout + 1).is_empty());
    let stats = manager.get_cluster_stats();
    assert_eq!(stats.failed_nodes, 1);
    assert_eq!(stats.healthy_nodes, 1);
}

#[test]
fn cluster_stats_are_collected() {
    let mut manager = ShardManager::new(ShardConfig::test_config(), 0);
    manager.add_node(NodeId::new("node1"), addr(8080), 0).unwrap();
    manager.collect_cluster_stats(5);
    let snapshot = manager.get_metrics().get_snapshot();
    let current = snapshot.cluster.current_stats.unwrap();
    assert_eq!(current.total_nodes, 1);
    assert_eq!(snapshot.cluster.last_update_ms, Some(5));
}

#[test]
fn test_metrics_creation() {
    let metrics = ShardMetrics::new(Duration::from_secs(1));
    let snapshot = metrics.get_snapshot();
    assert_eq!(snapshot.node_operations.nodes_added, 0);
    assert_eq!(snapshot.migration.migrations_started, 0);
    assert_eq!(snapshot.replication.write_operations, 0);
}

#[test]
fn test_node_operations_metrics() {
    let mut metrics = ShardMetrics::new(Duration::from_secs(1));
    metrics.record_node_added();
    metrics.record_node_removed();
    metrics.record_rebalance_triggered();
    let snapshot = metrics.get_snapshot();
    assert_eq!(snapshot.node_operations.nodes_added, 1);
    assert_eq!(snapshot.node_operations.nodes_removed, 1);
    assert_eq!(snapshot.node_operations.rebalances_triggered, 1);
}

#[test]
fn test_migration_metrics() {
    let mut metrics = ShardMetrics::new(Duration::from_secs(1));
    metrics.record_migration_started();
    metrics.record_keys_migrated(100);
    metrics.record_bytes_migrated(1024);
    metrics.record_migration_completed(Duration::from_millis(500));
    let snapshot = metrics.get_snapshot();
    assert_eq!(snapshot.migration.migrations_started, 1);
    assert_eq!(snapshot.migration.migrations_completed, 1);
    assert_eq!(snapshot.migration.active_migrations, 0);
    assert_eq!(snapshot.migration.keys_migrated, 100);
    assert_eq!(snapshot.migration.bytes_migrated, 1024);
    assert!(snapshot.migration.average_duration.as_millis() > 0);
    assert_eq!(snapshot.migration.average_duration, Duration::from_millis(500));
}

#[test]
fn migration_durations_average() {
    let mut metrics = ShardMetrics::new(Duration::from_secs(1));
    metrics.record_migration_started();
    metrics.record_migration_started();
    metrics.record_migration_completed(Duration::from_millis(100));
    metrics.record_migration_failed(Duration::from_millis(301));
    let snapshot = metrics.get_snapshot();
    assert_eq!(snapshot.migration.migrations_failed, 1);
    assert_eq!(snapshot.migration.average_duration, Duration::from_millis(200));
}

#[test]
fn test_replication_metrics() {
    let mut metrics = ShardMetrics::new(Duration::from_secs(1));
    metrics.record_replication_write(3, 2);
    metrics.record_replication_read(3, 3);
    metrics.record_quorum_failure();
    let snapshot = metrics.get_snapshot();
    assert_eq!(snapshot.replication.write_operations, 1);
    assert_eq!(snapshot.replication.read_operations, 1);
    assert_eq!(snapshot.replication.write_success_permille, 666);
    assert_eq!(snapshot.replication.read_success_permille, 1000);
    assert_eq!(snapshot.replication.quorum_failures, 1);
    assert_eq!(snapshot.errors.total_errors, 1);
}

#[test]
fn test_error_metrics() {
    let mut metrics = ShardMetrics::new(Duration::from_secs(1));
    metrics.record_error("network_error");
    metrics.record_error("timeout_error");
    metrics.record_error("network_error");
    let snapshot = metrics.get_snapshot();
    assert_eq!(snapshot.errors.total_errors, 3);
    let count = |k: &str| snapshot.errors.error_counts.iter().find(|(n, _)| n == k).map(|(_, c)| *c);
    assert_eq!(count("network_error"), Some(2));
    assert_eq!(count("timeout_error"), Some(1));
    assert_eq!(snapshot.errors.recent_errors.len(), 3);
}

#[test]
fn test_cluster_metrics() {
    let mut metrics = ShardMetrics::new(Duration::from_secs(1));
    let stats = ClusterStats {
        total_nodes: 5,
        healthy_nodes: 4,
        degraded_nodes: 1,
        failed_nodes: 0,
        virtual_nodes: 150,
        replication_factor: 3,
        is_balanced: true,
    };
    metrics.update_cluster_stats(stats, 10);
    let snapshot = metrics.get_snapshot();
    let current = snapshot.cluster.current_stats.unwrap();
    assert_eq!(current.total_nodes, 5);
    assert_eq!(current.healthy_nodes, 4);
    assert!(current.is_balanced);
}

#[test]
fn cluster_history_keeps_the_latest_hundred() {
    let mut metrics = ShardMetrics::new(Duration::from_secs(1));
    let stats = ClusterStats {
        total_nodes: 0,
        healthy_nodes: 0,
        degraded_nodes: 0,
        failed_nodes: 0,
        virtual_nodes: 0,
        replication_factor: 1,
        is_balanced: true,
    };
    for t in 0..150u64 {
        metrics.update_cluster_stats(stats, t);
    }
    let snapshot = metrics.get_snapshot();
    assert_eq!(snapshot.cluster.stats_history.len(), 100);
    assert_eq!(snapshot.cluster.stats_history[0].timestamp_ms, 50);
}

#[test]
fn test_metrics_reset() {
    let mut metrics = ShardMetrics::new(Duration::from_secs(1));
    metrics.record_node_added();
    metrics.record_migration_started();
    metrics.record_error("test_error");
    assert!(metrics.get_snapshot().node_operations.nodes_added > 0);
    metrics.reset();
    let snapshot_after = metrics.get_snapshot();
    assert_eq!(snapshot_after.node_operations.nodes_added, 0);
    assert_eq!(snapshot_after.migration.migrations_started, 0);
    assert_eq!(snapshot_after.errors.total_errors, 0);
}

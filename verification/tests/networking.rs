use std::time::{Duration, SystemTime};

use streamsync::codec::{gzip_compress, gzip_decompress, BinaryCodec, CodecKind, CodecSpec, CompressedCodec, JsonCodec, VersionedCodec};
use streamsync::connection::{ConnectionConfig, ConnectionManager, ConnectionState, PeerStatus};
use streamsync::gossip::{compute_hash, GossipConfig, GossipPeerInfo, GossipPull, GossipPush, GossipState, PeerStatus as GossipStatus};
use streamsync::net_config::{CompressionAlgorithm, NetworkConfig};
use streamsync::net_error::NetworkError;
use streamsync::net_metrics::NetworkMetrics;
use streamsync::peer_addr::PeerAddress;
use streamsync::security::{xor_with_key, Certificate, NoOpSecurityProvider, SharedSecretProvider};
use streamsync::transport_state::{connect_url, TransportState};

fn local(port: u16) -> PeerAddress {
    PeerAddress::v4(127, 0, 0, 1, port)
}

fn peer_info(id: u128, port: u16, services: &[&str]) -> GossipPeerInfo {
    GossipPeerInfo {
        peer_id: id,
        addresses: vec![local(port)],
        services: services.iter().map(|s| s.to_string()).collect(),
        protocol_version: 1,
        region: None,
        status: GossipStatus::Healthy,
        hop_count: 0,
        last_updated: 0,
    }
}

#[test]
fn test_gossip_config_defaults() {
    let config = GossipConfig::default();
    assert_eq!(config.fanout, 3);
    assert_eq!(config.gossip_interval, Duration::from_secs(1));
    assert!(config.use_push_pull);
}

#[test]
fn test_gossip_manager_creation() {
    let state = GossipState::new(42, GossipConfig::default());
    assert_eq!(state.node_id(), 42);
    assert_eq!(state.peer_count(), 0);
}

#[test]
fn test_add_peer() {
    let mut state = GossipState::new(1, GossipConfig::default());
    state.add_peer(peer_info(7, 8080, &["query"]), 0);
    let peers = state.get_healthy_peers();
    assert_eq!(peers.len(), 1);
    assert_eq!(peers[0].peer_id, 7);
}

#[test]
fn test_get_peers_by_service() {
    let mut state = GossipState::new(1, GossipConfig::default());
    state.add_peer(peer_info(2, 8080, &["query", "storage"]), 0);
    state.add_peer(peer_info(3, 8081, &["consensus"]), 0);
    assert_eq!(state.get_peers_by_service("query").len(), 1);
    assert_eq!(state.get_peers_by_service("consensus").len(), 1);
    assert_eq!(state.get_peers_by_service("none").len(), 0);
}

#[test]
fn test_handle_push() {
    let mut state = GossipState::new(1, GossipConfig::default());
    let mut info = peer_info(9, 8080, &[]);
    info.last_updated = 100;
    let push = GossipPush { sender_id: 5, peers: vec![info], timestamp: 100, state_digest: 0 };
    state.handle_push(push, 100);
    assert_eq!(state.get_healthy_peers().len(), 1);
}

#[test]
fn test_handle_pull() {
    let mut state = GossipState::new(1, GossipConfig::default());
    state.add_peer(peer_info(9, 8080, &[]), 0);
    let pull = GossipPull { requester_id: 5, service_filter: None, max_peers: 10, known_peers: vec![] };
    let response = state.handle_pull(&pull, 10);
    assert_eq!(response.peers.len(), 1);
    assert_eq!(response.sender_id, 1);
}

#[test]
fn test_certificate_validation() {
    let now: u64 = SystemTime::now().duration_since(SystemTime::UNIX_EPOCH).unwrap().as_millis() as u64;
    let cert = Certificate {
        data: vec![],
        subject: "CN=test".to_string(),
        issuer: "CN=ca".to_string(),
        valid_from_ms: now - Duration::from_secs(3600).as_millis() as u64,
        valid_until_ms: now + Duration::from_secs(3600).as_millis() as u64,
        serial_number: "123456".to_string(),
        fingerprint: "abc123".to_string(),
    };
    assert!(now >= cert.valid_from_ms);
    assert!(now <= cert.valid_until_ms);
}

#[test]
fn test_noop_security_provider() {
    let provider = NoOpSecurityProvider;
    let auth_result = provider.authenticate();
    assert!(auth_result.success);
    let data = b"test data";
    let encrypted = provider.encrypt(data);
    let decrypted = provider.decrypt(&encrypted);
    assert_eq!(data, decrypted.as_slice());
    let signature = provider.sign_data(data);
    assert!(provider.verify_integrity(data, &signature));
}

#[test]
fn test_shared_secret_provider() {
    let secret = b"test_secret";
    let mut provider = SharedSecretProvider::new(secret.to_vec());
    let peer = local(8080);
    let auth_result = provider.authenticate(&peer, secret, 1_000);
    assert!(auth_result.success);
    assert!(auth_result.peer_id.is_some());
    assert!(auth_result.session_token.is_some());
    let auth_result = provider.authenticate(&peer, b"wrong_secret", 1_000);
    assert!(!auth_result.success);
    let data = b"test data";
    let encrypted = provider.encrypt(data);
    assert_ne!(data, encrypted.as_slice());
    let decrypted = provider.decrypt(&encrypted);
    assert_eq!(data, decrypted.as_slice());
}

#[test]
fn test_session_management() {
    let mut provider = SharedSecretProvider::from_string("test");
    let peer = local(8080);
    let auth_result = provider.authenticate(&peer, b"test", 0);
    assert!(auth_result.success);
    let data = b"session test";
    let encrypted = provider.encrypt(data);
    let decrypted = provider.decrypt(&encrypted);
    assert_eq!(data, decrypted.as_slice());
    let key = provider.generate_session_key();
    assert_eq!(key, b"test");
}

#[test]
fn shared_secret_sessions_name_the_peer() {
    let mut provider = SharedSecretProvider::from_string("s").with_timeout(Duration::from_secs(10));
    let auth = provider.authenticate(&local(8080), b"s", 500);
    assert_eq!(auth.peer_id, Some("peer_127.0.0.1:8080".to_string()));
    assert!(auth.session_token.unwrap().starts_with("shared_"));
    assert_eq!(auth.expires_at_ms, Some(10_500));
    let signature = provider.sign_data(b"data");
    assert!(provider.verify_integrity(b"data", &signature));
    assert!(!provider.verify_integrity(b"data", b"nope"));
}

#[test]
fn xor_cycles_the_key() {
    assert_eq!(xor_with_key(&[1, 2, 3], &[1, 2]), vec![0, 0, 2]);
    assert_eq!(xor_with_key(&[5], &[]), Vec::<u8>::new());
    let once = xor_with_key(b"hello", b"k");
    assert_eq!(xor_with_key(&once, b"k"), b"hello".to_vec());
}

#[test]
fn config_test_default_config() {
    let config = NetworkConfig::default();
    assert!(config.validate().is_ok());
    assert_eq!(config.max_connections, 1000);
    assert!(!config.compression.enabled);
    assert!(!config.rate_limit.enabled);
}

#[test]
fn config_test_config_builder() {
    let config = NetworkConfig::new(local(8080))
        .with_max_connections(500)
        .with_compression(CompressionAlgorithm::Gzip, 6)
        .with_rate_limit(100, 1024 * 1024);
    assert_eq!(config.bind_address.port, 8080);
    assert_eq!(config.max_connections, 500);
    assert!(config.compression.enabled);
    assert!(config.rate_limit.enabled);
    assert!(config.validate().is_ok());
}

#[test]
fn config_test_invalid_configurations() {
    let mut config = NetworkConfig::default();
    config.max_connections = 0;
    assert!(config.validate().is_err());
    config.max_connections = 100;
    config.compression.enabled = true;
    config.compression.level = 0;
    assert!(config.validate().is_err());
    config.compression.level = 10;
    assert!(config.validate().is_err());
    config.compression.level = 6;
    config.retry_config.max_attempts = 0;
    assert!(config.validate().is_err());
}

#[test]
fn invalid_network_configuration_names_the_field() {
    let mut config = NetworkConfig::default();
    config.max_connections = 0;
    match config.validate() {
        Err(NetworkError::InvalidConfiguration { field, value, .. }) => {
            assert_eq!(field, "max_connections");
            assert_eq!(value, "0");
        },
        other => panic!("unexpected {:?}", other),
    }
}

#[test]
fn config_test_test_config() {
    let config = NetworkConfig::test_config();
    assert!(config.validate().is_ok());
    assert_eq!(config.max_connections, 10);
    assert!(!config.health_check.enabled);
}

#[test]
fn error_test_error_categorization() {
    let connection_error = NetworkError::ConnectionFailed { address: local(8080), reason: "timeout".to_string() };
    assert_eq!(connection_error.category(), "connection");
    assert!(connection_error.is_recoverable());
    assert_eq!(connection_error.severity(), "warning");
    let auth_error = NetworkError::AuthenticationFailed { peer: local(8080), reason: "invalid certificate".to_string() };
    assert_eq!(auth_error.category(), "security");
    assert!(!auth_error.is_recoverable());
    assert_eq!(auth_error.severity(), "error");
}

#[test]
fn test_recoverable_errors() {
    let recoverable_errors = vec![
        NetworkError::ConnectionFailed { address: local(8080), reason: "timeout".to_string() },
        NetworkError::MessageTimeout { timeout_ms: 5000 },
        NetworkError::IoError { reason: "temporary failure".to_string() },
    ];
    for error in recoverable_errors {
        assert!(error.is_recoverable(), "Expected error to be recoverable: {:?}", error);
    }
    let non_recoverable_errors = vec![
        NetworkError::InvalidConfiguration {
            field: "max_connections".to_string(),
            value: "invalid".to_string(),
            reason: "not a number".to_string(),
        },
        NetworkError::AuthenticationFailed { peer: local(8080), reason: "invalid credentials".to_string() },
    ];
    for error in non_recoverable_errors {
        assert!(!error.is_recoverable(), "Expected error to be non-recoverable: {:?}", error);
    }
}

#[test]
fn peer_address_text() {
    assert_eq!(local(8080).to_text(), "127.0.0.1:8080");
    assert_eq!(PeerAddress::localhost(9).to_text(), "127.0.0.1:9");
}

#[test]
fn test_connection_manager_creation() {
    let manager = ConnectionManager::new(ConnectionConfig::default());
    assert_eq!(manager.get_active_connections().len(), 0);
}

#[test]
fn test_add_remove_connection() {
    let mut manager = ConnectionManager::new(ConnectionConfig::default());
    let conn_id = manager.add_connection(local(8080), 1).unwrap();
    assert_eq!(manager.get_active_connections().len(), 0);
    manager.update_connection_state(conn_id, ConnectionState::Connected, 2).unwrap();
    assert_eq!(manager.get_active_connections().len(), 1);
    let connection = manager.get_connection(conn_id).unwrap();
    assert_eq!(connection.state, ConnectionState::Connected);
    manager.remove_connection(conn_id, 3).unwrap();
    assert_eq!(manager.get_active_connections().len(), 0);
}

#[test]
fn test_connection_limits() {
    let mut config = ConnectionConfig::default();
    config.max_connections = 2;
    let mut manager = ConnectionManager::new(config);
    assert!(manager.add_connection(local(8080), 1).is_ok());
    assert!(manager.add_connection(local(8081), 1).is_ok());
    assert!(matches!(manager.add_connection(local(8082), 1), Err(NetworkError::ConnectionLimitExceeded { current: 2, max: 2 })));
}

#[test]
fn connection_test_peer_management() {
    let mut manager = ConnectionManager::new(ConnectionConfig::default());
    let address = local(8080);
    let conn_id = manager.add_connection(address, 1).unwrap();
    let peer = manager.get_peer(address).unwrap();
    assert_eq!(peer.address, address);
    assert!(matches!(peer.status, PeerStatus::Unknown));
    manager.update_connection_state(conn_id, ConnectionState::Connected, 2).unwrap();
    let peer = manager.get_peer(address).unwrap();
    assert!(matches!(peer.status, PeerStatus::Healthy));
}

#[test]
fn test_activity_tracking() {
    let mut manager = ConnectionManager::new(ConnectionConfig::default());
    let conn_id = manager.add_connection(local(8080), 1).unwrap();
    manager.update_activity(conn_id, 100, 200, 2);
    let connection = manager.get_connection(conn_id).unwrap();
    assert_eq!(connection.bytes_sent, 100);
    assert_eq!(connection.bytes_received, 200);
    assert_eq!(connection.messages_sent, 1);
    assert_eq!(connection.messages_received, 1);
}

#[test]
fn test_peer_banning() {
    let mut manager = ConnectionManager::new(ConnectionConfig::default());
    let address = local(8080);
    manager.add_connection(address, 1).unwrap();
    manager.ban_peer(address, SystemTime::now() + Duration::from_millis(100)).unwrap();
    let peer = manager.get_peer(address).unwrap();
    assert!(matches!(peer.status, PeerStatus::Banned { .. }));
}

#[test]
fn test_codec_size_limits() {
    let codec = BinaryCodec::<u8>::with_max_size(100);
    let large_message: (u64, String, Vec<u8>) = (1, "x".repeat(1000), vec![0; 1000]);
    let encoded = bincode::serialize(&large_message).unwrap();
    let size = encoded.len();
    let result = codec.check_encoded(encoded);
    assert!(matches!(result, Err(NetworkError::MessageTooLarge { size: s, max_size: 100 }) if s == size));
    let small_message: (u64, String, Vec<u8>) = (1, "x".to_string(), vec![0; 3]);
    let small = bincode::serialize(&small_message).unwrap();
    assert_eq!(codec.check_encoded(small.clone()).unwrap(), small);
    assert_eq!(codec.name(), "binary");
    assert_eq!(JsonCodec::<u8>::new().name(), "json");
}

#[test]
fn test_compressed_codec() {
    let codec: CompressedCodec<u8, BinaryCodec<u8>> = CompressedCodec::new(BinaryCodec::<u8>::new()).with_min_size(0);
    let payload = vec![0u8; 1000];
    let encoded = codec.compress(&payload).unwrap();
    assert_eq!(encoded[0], 1);
    assert!(encoded.len() < payload.len());
    assert_eq!(codec.decompress(&encoded).unwrap(), payload);
    assert_eq!(codec.name(), "compressed");
}

#[test]
fn small_payloads_are_left_uncompressed() {
    let codec: CompressedCodec<u8, BinaryCodec<u8>> = CompressedCodec::new(BinaryCodec::<u8>::new());
    let encoded = codec.compress(&[7, 8, 9]).unwrap();
    assert_eq!(encoded, vec![0, 7, 8, 9]);
    assert_eq!(codec.decompress(&encoded).unwrap(), vec![7, 8, 9]);
}

#[test]
fn gzip_roundtrip() {
    let data = b"compression test with longer text to ensure compression".to_vec();
    let packed = gzip_compress(&data, 6).unwrap();
    assert_ne!(packed, data);
    assert_eq!(gzip_decompress(&packed).unwrap(), data);
}

fn binary() -> CodecSpec {
    CodecSpec { kind: CodecKind::Binary, max_size: None }
}

fn json() -> CodecSpec {
    CodecSpec { kind: CodecKind::Json, max_size: None }
}

fn encode_with(spec: CodecSpec, message: &(u64, String, Vec<u8>)) -> Vec<u8> {
    match spec.kind {
        CodecKind::Binary => bincode::serialize(message).unwrap(),
        CodecKind::Json => serde_json::to_vec(message).unwrap(),
        CodecKind::PrettyJson => serde_json::to_vec_pretty(message).unwrap(),
    }
}

#[test]
fn test_versioned_codec() {
    let message: (u64, String, Vec<u8>) = (999, "versioned".to_string(), vec![1, 2, 3]);
    let mut codec = VersionedCodec::<u8>::new(1).add_version(1, binary()).add_version(2, json());
    codec.set_version(1);
    let spec_v1 = codec.check_outgoing().unwrap();
    assert_eq!(spec_v1, binary());
    let encoded_v1 = codec.frame(&encode_with(spec_v1, &message));
    codec.set_version(2);
    let spec_v2 = codec.check_outgoing().unwrap();
    assert_eq!(spec_v2, json());
    let encoded_v2 = codec.frame(&encode_with(spec_v2, &message));
    assert_eq!(u32::from_le_bytes([encoded_v1[0], encoded_v1[1], encoded_v1[2], encoded_v1[3]]), 1);
    assert_eq!(u32::from_le_bytes([encoded_v2[0], encoded_v2[1], encoded_v2[2], encoded_v2[3]]), 2);
    let (version, payload) = codec.read_header(&encoded_v1).unwrap();
    assert_eq!(version, 1);
    assert_eq!(codec.codec_for_version(version), Some(binary()));
    let decoded_v1: (u64, String, Vec<u8>) = bincode::deserialize(&payload).unwrap();
    assert_eq!(decoded_v1, message);
    let (version, payload) = codec.read_header(&encoded_v2).unwrap();
    assert_eq!(version, 2);
    let decoded_v2: (u64, String, Vec<u8>) = serde_json::from_slice(&payload).unwrap();
    assert_eq!(decoded_v2, message);
    codec.set_version(3);
    assert!(matches!(codec.check_outgoing(), Err(NetworkError::SerializationError { .. })));
    assert_eq!(codec.codec_for_version(1), Some(binary()));
    assert_eq!(codec.codec_for_version(2), Some(json()));
    assert_eq!(codec.supported_versions(), vec![1, 2]);
}

#[test]
fn supported_versions_are_sorted_and_distinct() {
    let codec = VersionedCodec::<u8>::new(1)
        .add_version(3, binary())
        .add_version(1, binary())
        .add_version(2, json())
        .add_version(3, json())
        .add_version(1, CodecSpec { kind: CodecKind::Binary, max_size: Some(64) });
    assert_eq!(codec.supported_versions(), vec![1, 2, 3]);
    assert_eq!(codec.codec_for_version(3), Some(json()));
    assert_eq!(codec.codec_for_version(1).unwrap().max_size, Some(64));
    assert_eq!(codec.codec_for_version(5), None);
    assert_eq!(codec.max_size(), Some(64));
    assert_eq!(VersionedCodec::<u8>::new(2).max_size(), None);
    assert!(codec.has_version(2));
    assert!(!codec.has_version(4));
}

#[test]
fn test_version_negotiation() {
    let codec = VersionedCodec::<u8>::new(1).add_version(1, binary()).add_version(2, json()).add_version(3, binary());
    assert_eq!(codec.negotiate_version(&[1, 2]), Some(2));
    assert_eq!(codec.negotiate_version(&[1, 4]), Some(1));
    assert_eq!(codec.negotiate_version(&[4, 5]), None);
    assert_eq!(codec.supported_versions(), vec![1, 2, 3]);
}

#[test]
fn test_connection_metrics() {
    let mut metrics = NetworkMetrics::new();
    metrics.record_connection_established();
    metrics.record_connection_established();
    let snapshot = metrics.snapshot();
    assert_eq!(snapshot.connections.total_connections, 2);
    assert_eq!(snapshot.connections.active_connections, 2);
    metrics.record_connection_closed(Duration::from_secs(5));
    let snapshot = metrics.snapshot();
    assert_eq!(snapshot.connections.active_connections, 1);
    assert_eq!(snapshot.connections.peak_connections, 2);
    assert_eq!(snapshot.connections.avg_connection_duration_ms, 5000);
}

#[test]
fn test_message_metrics() {
    let mut metrics = NetworkMetrics::new();
    metrics.record_message_sent("peer1", 100, false);
    metrics.record_message_sent("peer2", 200, true);
    metrics.record_message_received("peer1", 150);
    let snapshot = metrics.snapshot();
    assert_eq!(snapshot.messages.messages_sent, 2);
    assert_eq!(snapshot.messages.messages_received, 1);
    assert_eq!(snapshot.messages.unicast_messages, 1);
    assert_eq!(snapshot.messages.broadcast_messages, 1);
    assert_eq!(snapshot.bandwidth.bytes_sent, 300);
    assert_eq!(snapshot.bandwidth.bytes_received, 150);
}

#[test]
fn metrics_test_error_metrics() {
    let mut metrics = NetworkMetrics::new();
    metrics.record_error("network");
    metrics.record_error("timeout");
    metrics.record_error("auth");
    metrics.record_error("something else");
    let snapshot = metrics.snapshot();
    assert_eq!(snapshot.errors.total_errors, 4);
    assert_eq!(snapshot.errors.network_errors, 1);
    assert_eq!(snapshot.errors.timeout_errors, 1);
    assert_eq!(snapshot.errors.auth_errors, 1);
    assert_eq!(snapshot.errors.protocol_errors, 0);
}

#[test]
fn test_peer_metrics() {
    let mut metrics = NetworkMetrics::new();
    metrics.record_message_sent("peer1", 100, false);
    metrics.record_message_sent("peer1", 200, false);
    metrics.record_message_received("peer1", 150);
    metrics.record_send_failure("peer1");
    let peer_metric = metrics.get_peer_metrics("peer1").unwrap();
    assert_eq!(peer_metric.messages_sent, 2);
    assert_eq!(peer_metric.messages_received, 1);
    assert_eq!(peer_metric.bytes_sent, 300);
    assert_eq!(peer_metric.bytes_received, 150);
    assert_eq!(peer_metric.error_count, 1);
    assert_eq!(peer_metric.reliability_permille, 666);
    assert!(metrics.get_peer_metrics("peer2").is_none());
}

#[test]
fn busiest_peers_come_first() {
    let mut metrics = NetworkMetrics::new();
    for i in 0..12u64 {
        let name = format!("peer{}", i);
        for _ in 0..=i {
            metrics.record_message_received(&name, 1);
        }
    }
    let snapshot = metrics.snapshot();
    assert_eq!(snapshot.top_peers.len(), 10);
    assert_eq!(snapshot.top_peers[0].address, "peer11");
    assert_eq!(snapshot.top_peers[9].address, "peer2");
}

#[test]
fn test_bandwidth_rates() {
    let mut metrics = NetworkMetrics::new();
    metrics.update_bandwidth_rates(1000, 2000);
    metrics.update_bandwidth_rates(1500, 1800);
    let snapshot = metrics.snapshot();
    assert_eq!(snapshot.bandwidth.send_rate_bps, 1500);
    assert_eq!(snapshot.bandwidth.receive_rate_bps, 1800);
    assert_eq!(snapshot.bandwidth.peak_send_rate_bps, 1500);
    assert_eq!(snapshot.bandwidth.peak_receive_rate_bps, 2000);
}

#[test]
fn metrics_test_metrics_reset() {
    let mut metrics = NetworkMetrics::new();
    metrics.record_connection_established();
    metrics.record_message_sent("peer1", 100, false);
    metrics.record_error("network");
    assert!(metrics.snapshot().connections.total_connections > 0);
    metrics.reset();
    let snapshot_after = metrics.snapshot();
    assert_eq!(snapshot_after.connections.total_connections, 0);
    assert_eq!(snapshot_after.messages.messages_sent, 0);
    assert_eq!(snapshot_after.errors.total_errors, 0);
    assert!(metrics.get_all_peer_metrics().is_empty());
}

#[test]
fn state_syncs_carry_a_checked_hash() {
    let mut sender = GossipState::new(1, GossipConfig::default());
    sender.add_peer(peer_info(2, 9001, &[]), 0);
    let out = sender.broadcast_state("config".to_string(), b"v1".to_vec());
    assert_eq!(out.len(), 1);
    let sync = out[0].1.clone();
    assert_eq!(sync.version, 1);
    assert_eq!(sync.hash, compute_hash(b"v1"));
    assert_eq!(&sync.hash[8..], &[0u8; 24]);
    let mut receiver = GossipState::new(2, GossipConfig::default());
    let mut forged = sync.clone();
    forged.hash[0] ^= 1;
    receiver.handle_state_sync(&forged);
    assert_eq!(receiver.state_version("config"), 0);
    receiver.handle_state_sync(&sync);
    assert_eq!(receiver.state_version("config"), 1);
}

#[test]
fn test_transport_start_stop() {
    let mut transport = TransportState::new("127.0.0.1:0".to_string(), 1024);
    assert!(transport.start().is_ok());
    assert!(matches!(transport.start(), Err(NetworkError::TransportAlreadyRunning)));
    assert!(transport.ensure_running().is_ok());
    assert!(transport.stop().is_ok());
    assert!(matches!(transport.stop(), Err(NetworkError::TransportNotStarted)));
    assert!(matches!(transport.ensure_running(), Err(NetworkError::TransportNotStarted)));
}

#[test]
fn transport_test_peer_management() {
    let mut transport = TransportState::new("127.0.0.1:0".to_string(), 1024);
    assert!(transport.start().is_ok());
    assert_eq!(transport.connected_peers().len(), 0);
    assert!(!transport.is_connected("127.0.0.1:8081"));
    assert!(transport.disconnect("127.0.0.1:8081").is_err());
    transport.record_connected("127.0.0.1:8081", 10);
    assert!(transport.is_connected("127.0.0.1:8081"));
    assert_eq!(transport.connected_peers(), vec!["127.0.0.1:8081".to_string()]);
    assert!(transport.disconnect("127.0.0.1:8081").is_ok());
    assert!(transport.stop().is_ok());
}

#[test]
fn test_stats() {
    let mut transport = TransportState::new("127.0.0.1:0".to_string(), 1024);
    assert!(transport.start().is_ok());
    let stats = transport.stats();
    assert_eq!(stats.connections_active, 0);
    assert_eq!(stats.messages_sent, 0);
    assert_eq!(stats.messages_received, 0);
    transport.record_connected("a:1", 0);
    transport.record_connected("a:1", 5);
    transport.record_sent(Some("a:1"), 100, 6);
    transport.record_sent(None, 50, 7);
    transport.record_received(30);
    let stats = transport.stats();
    assert_eq!(stats.connections_active, 1);
    assert_eq!(stats.connections_total, 2);
    assert_eq!(stats.messages_sent, 2);
    assert_eq!(stats.bytes_sent, 150);
    assert_eq!(stats.messages_received, 1);
    assert_eq!(stats.bytes_received, 30);
    assert!(transport.stop().is_ok());
}

#[test]
fn transport_urls_and_sizes() {
    assert_eq!(connect_url("127.0.0.1:9000"), "tcp://127.0.0.1:9000");
    assert_eq!(connect_url("tcp://127.0.0.1:9000"), "tcp://127.0.0.1:9000");
    let transport = TransportState::new("x".to_string(), 10);
    assert!(transport.check_message_size(10).is_ok());
    match transport.check_message_size(11) {
        Err(NetworkError::MessageTooLarge { size, max_size }) => {
            assert_eq!(size, 11);
            assert_eq!(max_size, 10);
        },
        other => panic!("unexpected {:?}", other),
    }
    assert_eq!(transport.local_address(), "x");
}

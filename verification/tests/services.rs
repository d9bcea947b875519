use std::time::Duration;

use streamsync::discovery::{peers_new_from_gossip, pick_gossip_targets, timed_out_peers, DiscoveredPeer, DiscoveryConfig, DiscoveryManager, DiscoveryMethod, NetworkTopology, PeerMetadata};
use streamsync::gossip::{GossipPeerInfo, PeerStatus as GossipStatus};
use streamsync::indexer_config::TransactionFilter;
use streamsync::message::NetworkMessage;
use streamsync::net_error::NetworkError;
use streamsync::node::{NodeId, NodeStatus};
use streamsync::node_info::{NodeInfo, NodeMetadata};
use streamsync::parse_cache::ParseCache;
use streamsync::peer_addr::PeerAddress;
use streamsync::program_types::{unknown_data, ParseResult};
use streamsync::query_text::{count_table_name, extract_table_names, generate_cache_key};
use streamsync::storage_queries::{account_activity_sql, cleanup_sql, recent_blocks_sql, transaction_by_signature_sql, transactions_by_program_sql, transactions_by_slot_sql};
use streamsync::security::{Certificate, TlsConfig, TlsProvider, TlsVersion};
use streamsync::shard_error::ShardError;
use streamsync::solana_key::AccountKey;
use streamsync::storage_cache::StorageCache;
use streamsync::storage_config::CacheConfig;
use streamsync::tx_filter::{
    cleanup_cutoff, get_transactions_by_filter, matching_positions, should_index_transaction, slot_range,
    transaction_matches, IndexedTransaction,
};

fn tx(id: u128, slot: u64, success: bool) -> IndexedTransaction {
    IndexedTransaction {
        id,
        signature: format!("sig{}", id),
        slot,
        block_time: None,
        fee: 5000,
        success,
        accounts: vec![],
        instructions: vec![],
        log_messages: None,
        compute_units_consumed: None,
    }
}

fn tls_config() -> TlsConfig {
    TlsConfig {
        cert_path: "/tmp/cert.pem".to_string(),
        key_path: "/tmp/key.pem".to_string(),
        ca_path: None,
        require_client_cert: false,
        session_timeout: Duration::from_secs(3600),
        cipher_suites: vec!["TLS_AES_256_GCM_SHA384".to_string()],
        min_version: TlsVersion::V1_2,
        max_version: TlsVersion::V1_3,
    }
}

fn cert(from_ms: u64, until_ms: u64) -> Certificate {
    Certificate {
        data: vec![],
        subject: "CN=test".to_string(),
        issuer: "CN=ca".to_string(),
        valid_from_ms: from_ms,
        valid_until_ms: until_ms,
        serial_number: "123456".to_string(),
        fingerprint: "abc123".to_string(),
    }
}

#[test]
fn test_tls_provider() {
    let provider_result = TlsProvider::new(tls_config());
    assert!(provider_result.is_ok());
}

#[test]
fn tls_sessions_round_trip() {
    let mut provider = TlsProvider::new(tls_config()).unwrap();
    let peer = PeerAddress::localhost(8080);
    let auth = provider.authenticate(&peer, b"anything", 1_000).unwrap();
    assert!(auth.success);
    assert_eq!(auth.peer_id, Some("peer_127.0.0.1".to_string()));
    assert!(auth.session_token.unwrap().starts_with("tls_"));
    assert_eq!(auth.expires_at_ms, Some(1_000 + 3_600_000));
    let key = provider.generate_session_key(&peer).unwrap();
    assert_eq!(key.len(), 8);
    let data = b"session test";
    let encrypted = provider.encrypt(data, &peer, 2_000).unwrap();
    let decrypted = provider.decrypt(&encrypted, &peer, 2_000).unwrap();
    assert_eq!(decrypted, data.to_vec());
    assert_eq!(provider.name(), "tls");
}

#[test]
fn tls_refuses_empty_credentials_and_unknown_peers() {
    let mut provider = TlsProvider::new(tls_config()).unwrap();
    let peer = PeerAddress::localhost(8080);
    let auth = provider.authenticate(&peer, b"", 0).unwrap();
    assert!(!auth.success);
    assert!(auth.peer_id.is_none());
    assert!(auth.session_token.is_none());
    match provider.encrypt(b"x", &peer, 0) {
        Err(NetworkError::EncryptionError { reason }) => assert_eq!(reason, "No session found for peer"),
        other => panic!("unexpected {:?}", other),
    }
    assert!(provider.generate_session_key(&peer).is_err());
}

#[test]
fn tls_sessions_expire_and_are_cleaned_up() {
    let mut provider = TlsProvider::new(tls_config()).unwrap();
    let peer = PeerAddress::localhost(9000);
    provider.authenticate(&peer, b"secret", 0).unwrap();
    match provider.decrypt(b"x", &peer, 3_600_001) {
        Err(NetworkError::EncryptionError { reason }) => assert_eq!(reason, "Session expired"),
        other => panic!("unexpected {:?}", other),
    }
    assert!(provider.encrypt(b"x", &peer, 3_600_000).is_ok());
    provider.cleanup_sessions(3_600_001);
    assert!(provider.generate_session_key(&peer).is_err());
}

#[test]
fn tls_trusts_only_valid_certificates() {
    let mut provider = TlsProvider::new(tls_config()).unwrap();
    assert!(provider.add_trusted_cert("ca".to_string(), cert(100, 200), 150).is_ok());
    match provider.add_trusted_cert("early".to_string(), cert(100, 200), 50) {
        Err(NetworkError::CertificateError { reason }) => assert_eq!(reason, "Certificate not yet valid"),
        other => panic!("unexpected {:?}", other),
    }
    match provider.add_trusted_cert("late".to_string(), cert(100, 200), 250) {
        Err(NetworkError::CertificateError { reason }) => assert_eq!(reason, "Certificate has expired"),
        other => panic!("unexpected {:?}", other),
    }
}

#[test]
fn tls_server_files_are_checked_in_order() {
    let provider = TlsProvider::new(tls_config()).unwrap();
    match provider.check_server_files(false, false) {
        Err(NetworkError::CertificateError { reason }) => assert_eq!(reason, "Certificate file not found: /tmp/cert.pem"),
        other => panic!("unexpected {:?}", other),
    }
    match provider.check_server_files(true, false) {
        Err(NetworkError::CertificateError { reason }) => assert_eq!(reason, "Private key file not found: /tmp/key.pem"),
        other => panic!("unexpected {:?}", other),
    }
    assert!(provider.check_server_files(true, true).is_ok());
}

#[test]
fn tls_signatures_verify() {
    let provider = TlsProvider::new(tls_config()).unwrap();
    let signature = provider.sign_data(b"payload");
    assert_eq!(signature.len(), 8);
    assert!(provider.verify_integrity(b"payload", &signature));
    assert!(!provider.verify_integrity(b"other", &signature) || provider.sign_data(b"other") == signature);
}

#[test]
fn test_network_message() {
    let message = NetworkMessage::new(
        "127.0.0.1:8080".to_string(),
        Some("127.0.0.1:8081".to_string()),
        b"test data".to_vec(),
        "test".to_string(),
    );
    assert_eq!(message.source, "127.0.0.1:8080");
    assert_eq!(message.destination, Some("127.0.0.1:8081".to_string()));
    assert_eq!(message.payload, b"test data".to_vec());
    assert_eq!(message.message_type, "test");
    assert_eq!(message.size(), 16 + 14 + 14 + 9 + 8 + 4);
    let other = NetworkMessage::new("a".to_string(), None, vec![], "t".to_string());
    assert_ne!(message.id, other.id);
    assert_eq!(other.size(), 16 + 1 + 8 + 1);
}

fn unknown(tag: u8) -> ParseResult {
    let key = AccountKey { bytes: [tag; 32] };
    ParseResult::Unknown(unknown_data(key, &[tag], &[], None, 10, &[tag], "hint"))
}

fn unknown_tag(r: &ParseResult) -> u8 {
    match r {
        ParseResult::Unknown(d) => d.instruction_data[0],
        _ => panic!("not an unknown result"),
    }
}

#[test]
fn parse_cache_serves_living_entries() {
    let mut cache = ParseCache::new(10);
    cache.insert("a".to_string(), unknown(1), 0);
    assert_eq!(cache.size(), 1);
    let hit = cache.get("a", 1_000).unwrap();
    assert_eq!(unknown_tag(&hit), 1);
    assert!(cache.get("missing", 1_000).is_none());
    assert!(cache.get("a", 300_000).is_none());
    assert_eq!(cache.size(), 0);
}

#[test]
fn parse_cache_evicts_least_read() {
    let mut cache = ParseCache::new(2);
    cache.insert("a".to_string(), unknown(1), 0);
    cache.insert("b".to_string(), unknown(2), 1);
    assert!(cache.get("a", 2).is_some());
    cache.insert("c".to_string(), unknown(3), 3);
    assert_eq!(cache.size(), 2);
    assert!(cache.get("b", 4).is_none());
    assert!(cache.get("a", 4).is_some());
    assert!(cache.get("c", 4).is_some());
}

#[test]
fn parse_cache_stats_count_reads_and_expiry() {
    let mut cache = ParseCache::new(10);
    cache.insert_with_ttl("short".to_string(), unknown(1), Duration::from_millis(10), 0);
    cache.insert("long".to_string(), unknown(2), 0);
    cache.get("long", 5);
    cache.get("long", 6);
    cache.get("short", 5);
    let stats = cache.stats(100);
    assert_eq!(stats.total_entries, 2);
    assert_eq!(stats.expired_entries, 1);
    assert_eq!(stats.hit_rate_permille, 1500);
    cache.clear();
    assert_eq!(cache.size(), 0);
    assert_eq!(cache.stats(100).hit_rate_permille, 0);
}

#[test]
fn transactions_filter_by_slot_and_outcome() {
    let mut filter = TransactionFilter::default();
    filter.min_slot = Some(10);
    filter.max_slot = Some(20);
    assert!(transaction_matches(&filter, &tx(1, 15, true)));
    assert!(!transaction_matches(&filter, &tx(2, 9, true)));
    assert!(!transaction_matches(&filter, &tx(3, 21, true)));
    assert!(!transaction_matches(&filter, &tx(4, 15, false)));
    filter.include_failed = true;
    assert!(transaction_matches(&filter, &tx(4, 15, false)));
}

#[test]
fn filtered_transactions_come_newest_first() {
    let txs = vec![tx(1, 5, true), tx(2, 9, true), tx(3, 7, false), tx(4, 9, true), tx(5, 1, true)];
    let filter = TransactionFilter::default();
    assert_eq!(matching_positions(&txs, &filter), vec![1, 3, 0, 4]);
    let picked = get_transactions_by_filter(&txs, &filter);
    let ids: Vec<u128> = picked.iter().map(|t| t.id).collect();
    assert_eq!(ids, vec![2, 4, 1, 5]);
}

#[test]
fn indexing_decisions() {
    assert!(should_index_transaction(false, true));
    assert!(!should_index_transaction(false, false));
    assert!(should_index_transaction(true, false));
    assert_eq!(slot_range(3, 6), vec![3, 4, 5, 6]);
    assert_eq!(slot_range(6, 3), Vec::<u64>::new());
    assert_eq!(cleanup_cutoff(1000, 100), 900);
    assert_eq!(cleanup_cutoff(50, 100), 0);
}

#[test]
fn table_names_follow_from_and_join() {
    let names = extract_table_names("SELECT * FROM transactions t JOIN blocks b ON t.slot = b.slot");
    assert_eq!(names, vec!["transactions".to_string(), "blocks".to_string()]);
    assert_eq!(extract_table_names("select 1"), Vec::<String>::new());
    let same = extract_table_names("SELECT * FROM accounts JOIN accounts");
    assert_eq!(same, vec!["accounts".to_string()]);
}

#[test]
fn cache_keys_depend_on_the_query() {
    let a = generate_cache_key("SELECT 1");
    let b = generate_cache_key("SELECT 2");
    assert!(a.starts_with("query:"));
    assert_eq!(a, generate_cache_key("SELECT 1"));
    assert_ne!(a, b);
}

#[test]
fn storage_cache_hits_misses_and_expiry() {
    let config = CacheConfig { enabled: true, size_mb: 1, ttl_seconds: 10, max_items: 2 };
    let mut cache = StorageCache::new(config);
    assert!(cache.put("a".to_string(), "1".to_string(), 0).is_ok());
    assert_eq!(cache.get("a", 1_000), Some("1".to_string()));
    assert_eq!(cache.get("b", 1_000), None);
    let stats = cache.get_stats(1_000);
    assert_eq!(stats.cache_hits, 1);
    assert_eq!(stats.cache_misses, 1);
    assert_eq!(stats.hit_rate_permille, 500);
    assert_eq!(cache.get("a", 10_001), None);
    assert_eq!(cache.get_stats(10_001).cache_misses, 2);
}

#[test]
fn storage_cache_evicts_oldest_and_cleans_up() {
    let config = CacheConfig { enabled: true, size_mb: 1, ttl_seconds: 10, max_items: 2 };
    let mut cache = StorageCache::new(config);
    cache.put("a".to_string(), "1".to_string(), 0).unwrap();
    cache.put("b".to_string(), "2".to_string(), 5_000).unwrap();
    cache.put("c".to_string(), "3".to_string(), 6_000).unwrap();
    assert_eq!(cache.get("a", 6_000), None);
    assert_eq!(cache.get("b", 6_000), Some("2".to_string()));
    assert_eq!(cache.get_stats(6_000).evictions, 1);
    assert_eq!(cache.cleanup_expired(15_500), 1);
    assert_eq!(cache.get("c", 15_500), Some("3".to_string()));
    assert_eq!(cache.remove("c"), Some("3".to_string()));
    cache.clear();
    assert_eq!(cache.get_stats(15_500).total_entries, 0);
}

#[test]
fn disabled_storage_cache_holds_nothing() {
    let config = CacheConfig { enabled: false, size_mb: 1, ttl_seconds: 10, max_items: 2 };
    let mut cache = StorageCache::new(config);
    cache.put("a".to_string(), "1".to_string(), 0).unwrap();
    assert_eq!(cache.get("a", 0), None);
}

#[test]
fn node_info_tracks_heartbeats() {
    let mut info = NodeInfo::new(NodeId::new("n1"), PeerAddress::localhost(7000), 1_000);
    assert_eq!(info.status, NodeStatus::Joining);
    info.update_heartbeat(2_000);
    assert_eq!(info.status, NodeStatus::Healthy);
    assert_eq!(info.uptime(5_000).unwrap(), 4_000);
    assert_eq!(info.time_since_heartbeat(5_000).unwrap(), 3_000);
    assert!(!info.is_failed(3_000, 1_500));
    assert!(info.is_failed(4_000, 1_500));
    assert!(info.is_failed(1_500, 1_500));
    match info.uptime(500) {
        Err(ShardError::InternalError { reason }) => {
            assert_eq!(reason, "Failed to calculate uptime: second time provided was later than self")
        },
        other => panic!("unexpected {:?}", other),
    }
}

#[test]
fn node_metadata_builders_set_fields() {
    let meta = NodeMetadata::default()
        .with_version("1.2")
        .with_region("eu")
        .with_storage_capacity(10)
        .with_memory_capacity(20)
        .with_cpu_cores(4)
        .with_custom("rack", "r1")
        .with_custom("rack", "r2");
    assert_eq!(meta.version, Some("1.2".to_string()));
    assert_eq!(meta.region, Some("eu".to_string()));
    assert_eq!(meta.storage_capacity, Some(10));
    assert_eq!(meta.memory_capacity, Some(20));
    assert_eq!(meta.cpu_cores, Some(4));
    assert_eq!(meta.custom, vec![("rack".to_string(), "r2".to_string())]);
}

#[test]
fn discovery_merges_gossip_and_drops_silent_peers() {
    assert_eq!(peers_new_from_gossip(&vec![1, 2], &vec![2, 3, 3, 4]), vec![3, 4]);
    let picked = pick_gossip_targets(5, 3);
    assert_eq!(picked.len(), 3);
    assert!(picked.iter().all(|p| *p < 5));
    assert_ne!(picked[0], picked[1]);
    assert_eq!(pick_gossip_targets(2, 3).len(), 2);
    let peers = vec![(1u128, Some(0u64)), (2, Some(900)), (3, None)];
    assert_eq!(timed_out_peers(&peers, 1_000, 500), vec![1]);
}

#[test]
fn storage_statements_are_spelled_out() {
    assert_eq!(transactions_by_slot_sql(42), "SELECT * FROM transactions WHERE slot = 42 ORDER BY block_time DESC");
    assert_eq!(transaction_by_signature_sql("abc"), "SELECT * FROM transactions WHERE signature = 'abc' LIMIT 1");
    assert_eq!(recent_blocks_sql(10), "SELECT * FROM blocks ORDER BY slot DESC LIMIT 10");
    assert_eq!(
        transactions_by_program_sql("P", 5),
        "SELECT t.* FROM transactions t JOIN instructions i ON t.id = i.transaction_id WHERE i.program_id = 'P' ORDER BY t.block_time DESC LIMIT 5"
    );
    assert_eq!(
        account_activity_sql("K", 3),
        "SELECT t.* FROM transactions t JOIN accounts a ON t.id = a.transaction_id WHERE a.pubkey = 'K' ORDER BY t.block_time DESC LIMIT 3"
    );
    assert_eq!(cleanup_sql("blocks", "2024-01-01T00:00:00+00:00"), "DELETE FROM blocks WHERE block_time < '2024-01-01T00:00:00+00:00'");
}

#[test]
fn count_statements_name_their_table() {
    assert_eq!(count_table_name("SELECT COUNT(*) FROM Blocks"), Some("blocks".to_string()));
    assert_eq!(count_table_name("SELECT COUNT(*) FROM (accounts);"), Some("accounts".to_string()));
    assert_eq!(count_table_name("SELECT COUNT(*) FROM   "), None);
    assert_eq!(count_table_name("SELECT 1"), None);
}

fn discovered(id: u128, services: &[&str], node_type: &str, port: u16) -> DiscoveredPeer {
    DiscoveredPeer {
        peer_id: id,
        addresses: vec![PeerAddress::localhost(port)],
        metadata: PeerMetadata {
            node_type: node_type.to_string(),
            protocol_version: 1,
            services: services.iter().map(|s| s.to_string()).collect(),
            region: None,
            extra: vec![],
        },
        discovered_at_ms: 0,
        last_seen_ms: None,
        reputation_permille: 500,
    }
}

#[test]
fn discovery_manager_keeps_one_entry_per_peer() {
    let mut m = DiscoveryManager::new(1, DiscoveryConfig::default(), vec![DiscoveryMethod::Gossip { fanout: 3 }], NetworkTopology::FullMesh).unwrap();
    assert_eq!(m.get_stats().discovery_methods_active, 1);
    assert!(m.start().is_ok());
    assert!(matches!(m.start(), Err(NetworkError::AlreadyRunning)));
    m.add_peer(discovered(10, &["indexer"], "primary", 1)).unwrap();
    m.add_peer(discovered(20, &["storage", "indexer"], "secondary", 2)).unwrap();
    m.add_peer(discovered(30, &["storage"], "primary", 3)).unwrap();
    m.add_peer(discovered(20, &["storage"], "secondary", 4)).unwrap();
    let peers = m.get_peers();
    assert_eq!(peers.iter().map(|p| p.peer_id).collect::<Vec<_>>(), vec![10, 20, 30]);
    assert_eq!(peers[1].addresses, vec![PeerAddress::localhost(4)]);
    assert_eq!(m.get_stats().total_peers_discovered, 4);
    assert_eq!(m.get_stats().active_peers, 3);
    let storage = m.get_peers_by_service("storage");
    assert_eq!(storage.iter().map(|p| p.peer_id).collect::<Vec<_>>(), vec![20, 30]);
    let indexers = m.get_peers_by_service("indexer");
    assert_eq!(indexers.iter().map(|p| p.peer_id).collect::<Vec<_>>(), vec![10]);
    assert!(m.get_peers_by_service("nothing").is_empty());
    assert!(m.is_network_formed());
    assert_eq!(m.get_recommended_connections().unwrap(), vec![10, 20, 30]);
    assert!(m.stop().is_ok());
    assert!(m.start().is_ok());
}

#[test]
fn hierarchical_discovery_picks_primary_peers() {
    let mut m = DiscoveryManager::new(1, DiscoveryConfig::default(), vec![], NetworkTopology::Hierarchical { levels: 2, branching_factor: 2 }).unwrap();
    m.add_peer(discovered(10, &[], "primary", 1)).unwrap();
    m.add_peer(discovered(20, &[], "secondary", 2)).unwrap();
    m.add_peer(discovered(30, &[], "primary", 3)).unwrap();
    assert_eq!(m.get_recommended_connections().unwrap(), vec![10, 30]);
    assert!(m.is_network_formed());
}

#[test]
fn decimal_text_of_integers() {
    assert_eq!(streamsync::text::u64_to_decimal(0), "0");
    assert_eq!(streamsync::text::u64_to_decimal(7), "7");
    assert_eq!(streamsync::text::u64_to_decimal(1234567890), "1234567890");
    assert_eq!(streamsync::text::u64_to_decimal(u64::MAX), u64::MAX.to_string());
}

#[test]
fn gossip_reported_peers_are_entered_as_secondaries() {
    let mut m = DiscoveryManager::new(1, DiscoveryConfig::default(), vec![], NetworkTopology::FullMesh).unwrap();
    m.add_peer(discovered(10, &["indexer"], "primary", 1)).unwrap();
    let infos = m.gossip_infos(77);
    assert_eq!(infos.len(), 1);
    assert_eq!(infos[0].peer_id, 10);
    assert_eq!(infos[0].services, vec!["indexer".to_string()]);
    assert_eq!(infos[0].status, GossipStatus::Healthy);
    assert_eq!(infos[0].hop_count, 0);
    assert_eq!(infos[0].last_updated, 77);
    let reported = vec![
        GossipPeerInfo { peer_id: 10, addresses: vec![], services: vec![], protocol_version: 9, region: None, status: GossipStatus::Healthy, hop_count: 1, last_updated: 5 },
        GossipPeerInfo { peer_id: 40, addresses: vec![PeerAddress::localhost(40)], services: vec!["query".to_string()], protocol_version: 2, region: Some("eu".to_string()), status: GossipStatus::Healthy, hop_count: 1, last_updated: 5 },
        GossipPeerInfo { peer_id: 40, addresses: vec![], services: vec![], protocol_version: 3, region: None, status: GossipStatus::Healthy, hop_count: 2, last_updated: 5 },
    ];
    m.learn_from_gossip(&reported, 500);
    let peers = m.get_peers();
    assert_eq!(peers.iter().map(|p| p.peer_id).collect::<Vec<_>>(), vec![10, 40]);
    assert_eq!(peers[0].metadata.node_type, "primary");
    assert_eq!(peers[1].metadata.node_type, "secondary");
    assert_eq!(peers[1].metadata.protocol_version, 2);
    assert_eq!(peers[1].metadata.region, Some("eu".to_string()));
    assert_eq!(peers[1].last_seen_ms, Some(500));
    assert_eq!(peers[1].reputation_permille, 1000);
    assert_eq!(m.get_stats().total_peers_discovered, 1);
}

#[test]
fn discovery_rounds_enter_the_drawn_peers() {
    let mut m = DiscoveryManager::new(1, DiscoveryConfig::default(), vec![], NetworkTopology::FullMesh).unwrap();
    let mut first = discovered(10, &[], "primary", 1);
    first.metadata.region = Some("ap".to_string());
    m.add_peer(first).unwrap();
    m.gossip_round(&vec![0, 0], &vec![50, 60], &vec![7, 8], &vec![true, false], 900);
    let peers = m.get_peers();
    assert_eq!(peers.iter().map(|p| p.peer_id).collect::<Vec<_>>(), vec![10, 50]);
    assert_eq!(peers[1].addresses, vec![PeerAddress::v4(127, 0, 0, 1, 9007)]);
    assert_eq!(peers[1].metadata.services, vec!["query".to_string(), "storage".to_string()]);
    assert_eq!(peers[1].metadata.region, Some("ap".to_string()));
    assert_eq!(peers[1].reputation_permille, 800);
    m.bootstrap_round(&vec![PeerAddress::localhost(9100), PeerAddress::localhost(9101)], &vec![70, 50], 950);
    let peers = m.get_peers();
    assert_eq!(peers.iter().map(|p| p.peer_id).collect::<Vec<_>>(), vec![10, 50, 70]);
    assert_eq!(peers[1].addresses, vec![PeerAddress::localhost(9101)]);
    assert_eq!(peers[1].metadata.region, Some("us-west-1".to_string()));
    assert_eq!(peers[2].metadata.services, vec!["consensus".to_string(), "storage".to_string()]);
    m.record_discovery_run(1234);
    assert_eq!(m.get_stats().last_discovery_run, Some(1234));
    assert_eq!(m.get_stats().total_peers_discovered, 1);
}

#[test]
fn uuid_text_is_hyphenated_lower_hex() {
    let v: u128 = 0x0123_4567_89ab_cdef_fedc_ba98_7654_3210;
    assert_eq!(streamsync::ids::uuid_to_string(v), "01234567-89ab-cdef-fedc-ba9876543210");
    assert_eq!(streamsync::ids::uuid_to_string(v), uuid::Uuid::from_u128(v).to_string());
    assert_eq!(streamsync::ids::uuid_to_string(0), "00000000-0000-0000-0000-000000000000");
    let r = streamsync::ids::random_uuid_string();
    assert_eq!(r.len(), 36);
}

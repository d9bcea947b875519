//! StreamSync core libraries: consistent-hash sharding, replication and
//! migration bookkeeping, message framing, SQL generation for the storage
//! layer and the configuration types shared by the services.

pub mod shard_error;
pub mod node;
pub mod virtual_node;
pub mod text;
pub mod hash_fn;

pub mod hash_ring;
pub mod ring_laws;
pub mod clock;
pub mod ids;
pub mod replication;
pub mod migration;
pub mod net_error;
pub mod peer_addr;
pub mod shard_config;
pub mod net_config;
pub mod solana_key;
pub mod parse_error;
pub mod decimal;
pub mod program_types;
pub mod spl_token;
pub mod detector;
pub mod program_parser;
pub mod program_parsers;
pub mod codec;
pub mod query_builder;
pub mod schema;
pub mod storage_config;
pub mod indexer_config;
pub mod security;
pub mod gossip;
pub mod discovery;
pub mod connection;
pub mod net_metrics;
pub mod shard_metrics;
pub mod node_info;
pub mod shard_manager;
pub mod tx_filter;
pub mod query_text;
pub mod storage_cache;
pub mod session;
pub mod message;
pub mod parse_cache;
pub mod transport_state;
pub mod storage_queries;

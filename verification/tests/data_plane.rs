use streamsync::detector::ProgramDetector;
use streamsync::indexer_config::{IndexingStats, SolanaConfig, TransactionFilter};
use streamsync::parse_error::ParseError;
use streamsync::program_parser::{parse_cache_key, ProgramParser};
use streamsync::program_types::ParseConfig;
use streamsync::program_parsers::{mock_metaplex_data, AnchorParser, JupiterParser, MarinadeParser, MetaplexParser, OrcaParser, RaydiumParser, SerumParser, SolendParser};
use streamsync::program_types::{JupiterOperation, MarinadeOperation, MetaplexOperation, OrcaOperation, OrderSide, ParseResult, ProgramType, RaydiumOperation, SerumOperation, SolendOperation, SplTokenOperation};
use streamsync::query_builder::QueryBuilder;
use streamsync::schema::SchemaManager;
use streamsync::solana_key::{key_from_base58, key_to_base58, AccountKey};
use streamsync::spl_token::SplTokenParser;
use streamsync::storage_config::{BatchCompressor, CompressionEngine, CompressionType};

fn key(b: u8) -> AccountKey {
    AccountKey::new_from_array([b; 32])
}

#[test]
fn test_solana_config_creation() {
    let config = SolanaConfig::new(
        "https://api.devnet.solana.com".to_string(),
        "wss://api.devnet.solana.com".to_string(),
    );
    assert_eq!(config.rpc_url, "https://api.devnet.solana.com");
    assert_eq!(config.ws_url, "wss://api.devnet.solana.com");
    assert_eq!(config.request_timeout_ms, 30000);
    assert_eq!(config.max_concurrent_requests, 10);
}

#[test]
fn test_solana_config_builder() {
    let config = SolanaConfig::new(
        "https://api.mainnet-beta.solana.com".to_string(),
        "wss://api.mainnet-beta.solana.com".to_string(),
    )
    .with_timeout(15000)
    .with_batch_size(50)
    .with_tracked_programs(vec!["11111111111111111111111111111112".to_string()]);
    assert_eq!(config.request_timeout_ms, 15000);
    assert_eq!(config.transaction_batch_size, 50);
    assert_eq!(config.tracked_programs.len(), 1);
}

#[test]
fn test_transaction_filter_creation() {
    let filter = TransactionFilter::new()
        .with_failed_transactions(true)
        .with_slot_range(1000, 2000);
    assert!(filter.include_failed);
    assert_eq!(filter.min_slot, Some(1000));
    assert_eq!(filter.max_slot, Some(2000));
}

#[test]
fn test_indexing_stats() {
    let mut stats = IndexingStats::new();
    assert_eq!(stats.transactions_indexed, 0);
    assert_eq!(stats.blocks_indexed, 0);
    assert_eq!(stats.errors_encountered, 0);
    stats.update_transaction_count(100);
    assert_eq!(stats.transactions_indexed, 100);
    stats.update_block_count(10, 1500);
    assert_eq!(stats.blocks_indexed, 10);
    assert_eq!(stats.last_indexed_slot, 1500);
    stats.increment_errors();
    assert_eq!(stats.errors_encountered, 1);
}

#[test]
fn test_default_solana_config() {
    let config = SolanaConfig::default();
    assert_eq!(config.rpc_url, "https://api.mainnet-beta.solana.com");
    assert_eq!(config.ws_url, "wss://api.mainnet-beta.solana.com");
    assert_eq!(config.request_timeout_ms, 30000);
    assert_eq!(config.max_concurrent_requests, 10);
    assert_eq!(config.slot_cache_size, 1000);
    assert_eq!(config.transaction_batch_size, 100);
    assert_eq!(config.polling_interval_ms, 1000);
    assert!(config.tracked_programs.is_empty());
    assert!(!config.include_failed_transactions);
}

#[test]
fn test_compression_roundtrip() {
    let engine = CompressionEngine::new(CompressionType::Gzip);
    let original_data = b"Hello, world! This is some test data for compression.";
    let compressed = engine.compress_data(original_data).unwrap();
    let decompressed = engine.decompress_data(&compressed, Some(original_data.len())).unwrap();
    assert_eq!(original_data.as_ref(), decompressed.as_slice());
}

#[test]
fn uncompressed_engine_keeps_bytes() {
    let engine = CompressionEngine::new(CompressionType::NoCompression);
    assert_eq!(engine.compress_data(b"abc").unwrap(), b"abc".to_vec());
    let batch = BatchCompressor::new(CompressionType::Gzip, 100);
    assert_eq!(batch.batch_size(), 100);
}

#[test]
fn base58_keys_roundtrip() {
    let text = "TokenkegQfeZyiNwAJbNbGKPFXCWuBvf9Ss623VQ5DA";
    let k = key_from_base58(text).unwrap();
    assert_eq!(key_to_base58(&k), text);
    assert!(key_from_base58("not base58 0OIl").is_none());
}

#[test]
fn known_programs_are_detected_by_id() {
    let detector = ProgramDetector::new();
    let token = key_from_base58("TokenkegQfeZyiNwAJbNbGKPFXCWuBvf9Ss623VQ5DA").unwrap();
    let result = detector.detect_program(&token, &[3], &[]).unwrap();
    assert_eq!(result.program_type, ProgramType::SplToken);
    assert_eq!(result.confidence_percent, 100);
}

#[test]
fn spl_transfer_is_parsed() {
    let parser = SplTokenParser::new();
    let mut data = vec![3u8];
    data.extend_from_slice(&1_500_000u64.to_le_bytes());
    let accounts = [key(1), key(2), key(3), key(4)];
    match parser.parse(key(9), &data, &accounts).unwrap() {
        ParseResult::SplToken(d) => {
            assert_eq!(d.operation_type, SplTokenOperation::Transfer);
            assert_eq!(d.amount, 1_500_000);
            assert_eq!(d.decimals, 6);
            assert_eq!(d.from, Some(key(1)));
            assert_eq!(d.to, Some(key(2)));
            assert_eq!(d.authority, Some(key(3)));
            assert_eq!(d.multisig_signers, vec![key(4)]);
            assert_eq!(d.parsed_amount.to_string(), "1.500000");
        },
        other => panic!("unexpected {:?}", other),
    }
}

#[test]
fn spl_transfer_needs_three_accounts() {
    let parser = SplTokenParser::new();
    let mut data = vec![3u8];
    data.extend_from_slice(&7u64.to_le_bytes());
    assert!(matches!(
        parser.parse(key(9), &data, &[key(1)]),
        Err(ParseError::InsufficientData { expected: 3, actual: 1 })
    ));
    assert!(matches!(parser.parse(key(9), &[], &[]), Err(ParseError::InsufficientData { expected: 1, actual: 0 })));
    assert!(matches!(parser.parse(key(9), &[250], &[]), Err(ParseError::InvalidInstructionData { .. })));
}

#[test]
fn select_queries_are_built() {
    let q = QueryBuilder::new("transactions")
        .by_slot_range(10, 20)
        .successful_only()
        .recent_first()
        .limit(5);
    assert_eq!(
        q.build_select(),
        "SELECT * FROM transactions WHERE slot >= 10 AND slot <= 20 AND success = true ORDER BY block_time DESC LIMIT 5"
    );
    assert_eq!(
        q.build_count(),
        "SELECT COUNT(*) as count FROM transactions WHERE slot >= 10 AND slot <= 20 AND success = true"
    );
}

#[test]
fn schema_tables_are_generated() {
    let mut schema = SchemaManager::new();
    schema.initialize_solana_schema().unwrap();
    let sql = schema.generate_create_table_sql("blocks").unwrap();
    assert!(sql.starts_with("CREATE TABLE IF NOT EXISTS blocks ("));
    assert!(schema.generate_create_table_sql("missing").is_err());
}

#[test]
fn compression_reports_sizes() {
    let engine = CompressionEngine::new(CompressionType::Gzip);
    let original_data = b"Hello, world! This is some test data for compression.";
    let (compressed, sizes) = engine.compress(original_data).unwrap();
    assert_eq!(sizes.original_size, original_data.len() as u64);
    assert_eq!(sizes.compressed_size, compressed.len() as u64);
    let (decompressed, back) = engine.decompress(&compressed, Some(original_data.len())).unwrap();
    assert_eq!(decompressed.as_slice(), original_data.as_ref());
    assert_eq!(back.original_size, original_data.len() as u64);
    assert_eq!(back.compressed_size, compressed.len() as u64);
    assert!(engine.decompress(&compressed, Some(3)).is_err());
    let repetitive = vec![b'a'; 4096];
    let (small, st) = engine.compress(&repetitive).unwrap();
    assert!(st.compressed_size < st.original_size);
    assert_ne!(small, repetitive);
}

#[test]
fn metaplex_parser_reports_the_sample_mint() {
    let parser = MetaplexParser::new();
    match parser.parse(&key(1), &[0, 1, 2], &[]).unwrap() {
        ParseResult::Metaplex(d) => {
            assert_eq!(d.operation_type, MetaplexOperation::MintNft);
            assert_eq!(d.name, "Demo NFT");
            assert_eq!(d.symbol, "DEMO");
            assert_eq!(d.uri, "https://example.com/nft.json");
            assert_eq!(d.seller_fee_basis_points, 500);
            assert!(d.creators.is_empty());
            assert!(d.collection.is_none());
            assert!(d.uses.is_none());
            assert!(!d.is_compressed);
            assert!(d.tree_authority.is_none());
            assert!(d.leaf_id.is_none());
            assert!(d.attributes.is_empty());
        },
        other => panic!("unexpected {:?}", other),
    }
    assert!(matches!(parser.parse_account(&[1, 2, 3]), Err(ParseError::Internal(_))));
    let mock = mock_metaplex_data();
    assert_eq!(mock.name, "Cool NFT #123");
    assert_eq!(mock.creators.len(), 1);
    assert_eq!(mock.creators[0].share, 100);
}

#[test]
fn orca_and_serum_parsers_report_their_samples() {
    match OrcaParser::new().parse(&key(1), &[], &[]).unwrap() {
        ParseResult::Orca(d) => {
            assert_eq!(d.operation_type, OrcaOperation::Swap);
            assert_eq!(d.tick_current_index, 1000);
            assert_eq!(d.liquidity, 1_000_000);
            assert_eq!(d.fee_tier, 3000);
            assert!(d.position.is_none());
            assert!(d.rewards.is_empty());
        },
        other => panic!("unexpected {:?}", other),
    }
    match SerumParser::new().parse(&key(1), &[], &[]).unwrap() {
        ParseResult::Serum(d) => {
            assert_eq!(d.operation_type, SerumOperation::PlaceOrder);
            assert_eq!(d.side, OrderSide::Bid);
            assert_eq!(d.price, 10000);
            assert_eq!(d.quantity, 1000);
            assert_eq!(d.order_id, Some(12345));
            assert_eq!(d.client_order_id, Some(67890));
            assert_eq!(d.fees.base_fee, 100);
            assert_eq!(d.fees.quote_fee, 50);
        },
        other => panic!("unexpected {:?}", other),
    }
}

#[test]
fn metaplex_instructions_are_parsed_by_the_program_parser() {
    let mut parser = ProgramParser::new();
    let metaplex = key_from_base58("metaqbxxUerdq28cj1RbAWkYQm3ybzjb6a8bt518x1s").unwrap();
    match parser.parse_instruction(&metaplex, &[0x6a, 0x18, 0x53, 0x00], &[], 1_000).unwrap() {
        ParseResult::Metaplex(d) => assert_eq!(d.name, "Demo NFT"),
        other => panic!("unexpected {:?}", other),
    }
    match parser.parse_transaction_data(&[1]).unwrap() {
        ParseResult::Metaplex(d) => {
            assert_eq!(d.name, "Cool NFT #123");
            assert_eq!(d.symbol, "COOL");
        },
        other => panic!("unexpected {:?}", other),
    }
    match parser.parse_transaction_data(&[2]).unwrap() {
        ParseResult::Jupiter(d) => assert_eq!(d.output_amount, 995000),
        other => panic!("unexpected {:?}", other),
    }
    let raydium = key_from_base58("675kPX9MHTjS2zt1qfr1NYHuzeLXfQM9H24wFSUt1Mp8").unwrap();
    assert!(matches!(parser.parse_instruction(&raydium, &[9], &[], 1_000).unwrap(), ParseResult::Raydium(_)));
    let stats = parser.get_stats();
    assert_eq!(stats.total_parsed, 4);
    assert_eq!(stats.successful_parses, 4);
    assert!(parser.parse_transaction_data(&[]).is_err());
}

#[test]
fn schema_indexes_are_generated() {
    let mut schema = SchemaManager::new();
    schema.initialize_solana_schema().unwrap();
    assert_eq!(
        schema.generate_create_index_sql("blocks").unwrap(),
        vec![
            "CREATE UNIQUE INDEX IF NOT EXISTS idx_blocks_slot ON blocks (slot);".to_string(),
            "CREATE INDEX IF NOT EXISTS idx_blocks_block_time ON blocks (block_time);".to_string(),
            "CREATE INDEX IF NOT EXISTS idx_blocks_leader ON blocks (leader);".to_string(),
        ]
    );
    assert!(schema.generate_create_index_sql("nope").is_err());
    let sql = schema.generate_create_table_sql("instructions").unwrap();
    assert!(sql.starts_with("CREATE TABLE IF NOT EXISTS instructions (\n    id UUID NOT NULL,\n"));
    assert!(sql.ends_with("FOREIGN KEY (transaction_id) REFERENCES transactions (id)\n);"));
}

#[test]
fn jupiter_raydium_solend_and_marinade_parsers_report_their_samples() {
    match JupiterParser::new().parse(&key(1), &[], &[]).unwrap() {
        ParseResult::Jupiter(d) => {
            assert_eq!(d.operation_type, JupiterOperation::Swap);
            assert_eq!(d.input_amount, 1_000_000);
            assert_eq!(d.minimum_output_amount, 990_000);
            assert_eq!(d.slippage_bps, 50);
            assert!(d.route.is_empty() && d.fees.is_empty());
            assert_eq!(d.price_impact_bps, Some(10));
            assert!(d.referrer.is_none());
        },
        other => panic!("unexpected {:?}", other),
    }
    match RaydiumParser::new().parse(&key(1), &[], &[]).unwrap() {
        ParseResult::Raydium(d) => {
            assert_eq!(d.operation_type, RaydiumOperation::Swap);
            assert_eq!(d.token_b_amount, 2_000_000);
            assert_eq!(d.liquidity_info.price_a_to_b_bps, 20000);
            assert_eq!(d.liquidity_info.price_b_to_a_bps, 5000);
            assert_eq!(d.fees.trade_fee_rate, 25);
        },
        other => panic!("unexpected {:?}", other),
    }
    match SolendParser::new().parse(&key(1), &[], &[]).unwrap() {
        ParseResult::Solend(d) => {
            assert_eq!(d.operation_type, SolendOperation::DepositReserveLiquidity);
            assert_eq!(d.health_factor_bps, Some(15000));
            assert_eq!(d.ltv_bps, Some(7500));
            assert_eq!(d.liquidation_threshold_bps, Some(8500));
        },
        other => panic!("unexpected {:?}", other),
    }
    match MarinadeParser::new().parse(&key(1), &[], &[]).unwrap() {
        ParseResult::Marinade(d) => {
            assert_eq!(d.operation_type, MarinadeOperation::Deposit);
            assert_eq!(d.sol_amount, Some(1_000_000_000));
            assert_eq!(d.msol_amount, Some(950_000_000));
            assert_eq!(d.exchange_rate_bps, 9500);
            assert!(d.validator_list.is_none());
        },
        other => panic!("unexpected {:?}", other),
    }
}

#[test]
fn anchor_parser_names_accounts_and_reads_the_discriminator() {
    let data = [1u8, 2, 3, 4, 5, 6, 7, 8, 9, 10];
    match AnchorParser::new().parse(&key(7), &data, &[key(1), key(2)]).unwrap() {
        ParseResult::Anchor(d) => {
            assert_eq!(d.program_id, key(7));
            assert_eq!(d.instruction_name, "unknown");
            assert_eq!(d.instruction_discriminator, vec![1, 2, 3, 4, 5, 6, 7, 8]);
            assert_eq!(d.accounts.len(), 2);
            assert_eq!(d.accounts[0].name, "account_0");
            assert_eq!(d.accounts[1].name, "account_1");
            assert_eq!(d.accounts[1].pubkey, key(2));
            assert!(!d.accounts[0].is_signer && !d.accounts[0].is_writable && !d.accounts[0].is_optional);
            assert!(d.instruction_data.is_empty());
            assert!(d.idl_version.is_none() && d.program_name.is_none());
        },
        other => panic!("unexpected {:?}", other),
    }
    match AnchorParser::new().parse(&key(7), &[1, 2, 3], &[]).unwrap() {
        ParseResult::Anchor(d) => {
            assert!(d.instruction_discriminator.is_empty());
            assert!(d.accounts.is_empty());
        },
        other => panic!("unexpected {:?}", other),
    }
}

#[test]
fn parse_results_are_cached_by_their_inputs() {
    let mut parser = ProgramParser::new();
    let raydium = key_from_base58("675kPX9MHTjS2zt1qfr1NYHuzeLXfQM9H24wFSUt1Mp8").unwrap();
    let first = match parser.parse_instruction(&raydium, &[9], &[key(1)], 1_000).unwrap() {
        ParseResult::Raydium(d) => d,
        other => panic!("unexpected {:?}", other),
    };
    let second = match parser.parse_instruction(&raydium, &[9], &[key(1)], 2_000).unwrap() {
        ParseResult::Raydium(d) => d,
        other => panic!("unexpected {:?}", other),
    };
    assert_eq!(first.amm_id, second.amm_id);
    assert_eq!(parser.get_stats().cache_hits, 1);
    assert_eq!(parser.get_stats().cache_misses, 1);
    assert_eq!(parser.get_stats().total_parsed, 1);
    let other = match parser.parse_instruction(&raydium, &[8], &[key(1)], 2_000).unwrap() {
        ParseResult::Raydium(d) => d,
        o => panic!("unexpected {:?}", o),
    };
    assert_ne!(other.amm_id, first.amm_id);
    assert_eq!(parser.get_stats().cache_misses, 2);
    let expired = match parser.parse_instruction(&raydium, &[9], &[key(1)], 1_000 + 300_000).unwrap() {
        ParseResult::Raydium(d) => d,
        o => panic!("unexpected {:?}", o),
    };
    assert_ne!(expired.amm_id, first.amm_id);
    assert_eq!(parser.get_stats().cache_misses, 3);
    parser.clear_cache();
    let fresh = match parser.parse_instruction(&raydium, &[8], &[key(1)], 2_001).unwrap() {
        ParseResult::Raydium(d) => d,
        o => panic!("unexpected {:?}", o),
    };
    assert_ne!(fresh.amm_id, other.amm_id);
    assert_eq!(parser.get_stats().cache_hits, 1);
}

#[test]
fn uncached_parsers_parse_every_time() {
    let config = ParseConfig { cache_results: false, ..ParseConfig::default() };
    let mut parser = ProgramParser::with_config(config);
    let raydium = key_from_base58("675kPX9MHTjS2zt1qfr1NYHuzeLXfQM9H24wFSUt1Mp8").unwrap();
    parser.parse_instruction(&raydium, &[9], &[], 1).unwrap();
    parser.parse_instruction(&raydium, &[9], &[], 2).unwrap();
    assert_eq!(parser.get_stats().cache_hits, 0);
    assert_eq!(parser.get_stats().cache_misses, 0);
    assert_eq!(parser.get_stats().total_parsed, 2);
}

#[test]
fn cache_keys_name_the_hash_of_the_inputs() {
    let a = parse_cache_key(&key(1), &[1, 2, 3], &[key(2)]);
    let b = parse_cache_key(&key(1), &[1, 2, 3], &[key(2)]);
    let c = parse_cache_key(&key(1), &[1, 2, 4], &[key(2)]);
    assert_eq!(a, b);
    assert_ne!(a, c);
    assert!(a.starts_with("parse_"));
    assert!(a["parse_".len()..].chars().all(|ch| ch.is_ascii_digit()));
}

#[test]
fn schemas_are_registered_once_per_name() {
    let mut schema = SchemaManager::new();
    schema.initialize_solana_schema().unwrap();
    schema.initialize_solana_schema().unwrap();
    assert_eq!(schema.get_all_schemas().len(), 4);
    assert_eq!(schema.get_schema("transactions").unwrap().columns.len(), 9);
    assert_eq!(schema.get_schema("blocks").unwrap().columns.len(), 11);
    assert_eq!(schema.get_schema("accounts").unwrap().columns.len(), 7);
    assert_eq!(schema.get_schema("instructions").unwrap().columns.len(), 6);
}

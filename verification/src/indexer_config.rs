//! Configuration, records and counters of the Solana transaction indexer.

use vstd::prelude::*;
use std::time::{Duration, SystemTime};
use crate::clock::{duration_from_millis, millis_duration, system_now};
use crate::solana_key::AccountKey;

verus! {

/// Endpoints, limits and what to index.
#[derive(Debug, Clone)]
pub struct SolanaConfig {
    pub rpc_url: String,
    pub ws_url: String,
    pub request_timeout_ms: u64,
    pub max_concurrent_requests: usize,
    pub slot_cache_size: usize,
    pub transaction_batch_size: usize,
    pub polling_interval_ms: u64,
    pub tracked_programs: Vec<String>,
    pub include_failed_transactions: bool,
}

/// The defaults of every setting but the endpoints.
pub open spec fn solana_defaults_except_urls(c: SolanaConfig) -> bool {
    &&& c.request_timeout_ms == 30000
    &&& c.max_concurrent_requests == 10
    &&& c.slot_cache_size == 1000
    &&& c.transaction_batch_size == 100
    &&& c.polling_interval_ms == 1000
    &&& c.tracked_programs@.len() == 0
    &&& !c.include_failed_transactions
}

impl Default for SolanaConfig {
    /// The mainnet-beta endpoints.
    fn default() -> (res: Self)
        ensures
            res.rpc_url@ == "https://api.mainnet-beta.solana.com"@,
            res.ws_url@ == "wss://api.mainnet-beta.solana.com"@,
            solana_defaults_except_urls(res),
    {
        SolanaConfig::new(
            "https://api.mainnet-beta.solana.com".to_owned(),
            "wss://api.mainnet-beta.solana.com".to_owned(),
        )
    }
}

impl SolanaConfig {
    /// The defaults with the given endpoints.
    pub fn new(rpc_url: String, ws_url: String) -> (res: Self)
        ensures
            res.rpc_url == rpc_url,
            res.ws_url == ws_url,
            solana_defaults_except_urls(res),
    {
        SolanaConfig {
            rpc_url,
            ws_url,
            request_timeout_ms: 30000,
            max_concurrent_requests: 10,
            slot_cache_size: 1000,
            transaction_batch_size: 100,
            polling_interval_ms: 1000,
            tracked_programs: Vec::new(),
            include_failed_transactions: false,
        }
    }

    pub fn with_timeout(self, timeout_ms: u64) -> (res: Self)
        ensures
            res == (SolanaConfig { request_timeout_ms: timeout_ms, ..self }),
    {
        let mut c = self;
        c.request_timeout_ms = timeout_ms;
        c
    }

    pub fn with_batch_size(self, batch_size: usize) -> (res: Self)
        ensures
            res == (SolanaConfig { transaction_batch_size: batch_size, ..self }),
    {
        let mut c = self;
        c.transaction_batch_size = batch_size;
        c
    }

    pub fn with_tracked_programs(self, programs: Vec<String>) -> (res: Self)
        ensures
            res == (SolanaConfig { tracked_programs: programs, ..self }),
    {
        let mut c = self;
        c.tracked_programs = programs;
        c
    }

    /// The request timeout as a `Duration`.
    pub fn get_timeout(&self) -> (res: Duration)
        ensures
            res == millis_duration(self.request_timeout_ms),
    {
        duration_from_millis(self.request_timeout_ms)
    }

    /// The polling interval as a `Duration`.
    pub fn get_polling_interval(&self) -> (res: Duration)
        ensures
            res == millis_duration(self.polling_interval_ms),
    {
        duration_from_millis(self.polling_interval_ms)
    }
}

/// An account of an indexed transaction with its balance change.
#[derive(Debug, Clone)]
pub struct IndexedAccount {
    pub pubkey: String,
    pub is_signer: bool,
    pub is_writable: bool,
    pub pre_balance: u64,
    pub post_balance: u64,
}

/// An instruction an instruction invoked.
#[derive(Debug, Clone)]
pub struct IndexedInnerInstruction {
    pub instruction_index: u8,
    pub program_id: String,
    pub accounts: Vec<u8>,
    pub data: String,
}

/// An instruction of an indexed transaction.
#[derive(Debug, Clone)]
pub struct IndexedInstruction {
    pub program_id: String,
    pub accounts: Vec<u8>,
    pub data: String,
    pub inner_instructions: Vec<IndexedInnerInstruction>,
}

/// Which transactions to index.
#[derive(Debug, Clone)]
pub struct TransactionFilter {
    pub programs: Vec<AccountKey>,
    pub accounts: Vec<AccountKey>,
    pub include_failed: bool,
    pub min_slot: Option<u64>,
    pub max_slot: Option<u64>,
}

impl Default for TransactionFilter {
    fn default() -> (res: Self)
        ensures
            res.programs@.len() == 0,
            res.accounts@.len() == 0,
            !res.include_failed,
            res.min_slot is None,
            res.max_slot is None,
    {
        TransactionFilter { programs: Vec::new(), accounts: Vec::new(), include_failed: false, min_slot: None, max_slot: None }
    }
}

impl TransactionFilter {
    /// Everything but failed transactions, over all slots.
    pub fn new() -> (res: Self)
        ensures
            res.programs@.len() == 0,
            res.accounts@.len() == 0,
            !res.include_failed,
            res.min_slot is None,
            res.max_slot is None,
    {
        Self::default()
    }

    pub fn with_programs(self, programs: Vec<AccountKey>) -> (res: Self)
        ensures
            res == (TransactionFilter { programs, ..self }),
    {
        let mut f = self;
        f.programs = programs;
        f
    }

    pub fn with_accounts(self, accounts: Vec<AccountKey>) -> (res: Self)
        ensures
            res == (TransactionFilter { accounts, ..self }),
    {
        let mut f = self;
        f.accounts = accounts;
        f
    }

    pub fn with_failed_transactions(self, include_failed: bool) -> (res: Self)
        ensures
            res == (TransactionFilter { include_failed, ..self }),
    {
        let mut f = self;
        f.include_failed = include_failed;
        f
    }

    /// Slots from `min_slot` to `max_slot`.
    pub fn with_slot_range(self, min_slot: u64, max_slot: u64) -> (res: Self)
        ensures
            res == (TransactionFilter { min_slot: Some(min_slot), max_slot: Some(max_slot), ..self }),
    {
        let mut f = self;
        f.min_slot = Some(min_slot);
        f.max_slot = Some(max_slot);
        f
    }
}

/// Counters of the indexer, with the time it started and last changed.
#[derive(Debug, Clone)]
pub struct IndexingStats {
    pub transactions_indexed: u64,
    pub blocks_indexed: u64,
    pub errors_encountered: u64,
    pub last_indexed_slot: u64,
    pub started_at: SystemTime,
    pub last_update: SystemTime,
}

impl IndexingStats {
    /// Zeroed counters, started now.
    pub fn new() -> (res: Self)
        ensures
            res.transactions_indexed == 0,
            res.blocks_indexed == 0,
            res.errors_encountered == 0,
            res.last_indexed_slot == 0,
            res.last_update == res.started_at,
    {
        let now = system_now();
        IndexingStats {
            transactions_indexed: 0,
            blocks_indexed: 0,
            errors_encountered: 0,
            last_indexed_slot: 0,
            started_at: now,
            last_update: now,
        }
    }

    /// Counts indexed transactions.
    pub fn update_transaction_count(&mut self, count: u64)
        requires
            old(self).transactions_indexed + count <= u64::MAX,
        ensures
            final(self).transactions_indexed == old(self).transactions_indexed + count,
            final(self).blocks_indexed == old(self).blocks_indexed,
            final(self).errors_encountered == old(self).errors_encountered,
            final(self).last_indexed_slot == old(self).last_indexed_slot,
            final(self).started_at == old(self).started_at,
    {
        self.transactions_indexed = self.transactions_indexed + count;
        self.last_update = system_now();
    }

    /// Counts indexed blocks and records the last slot.
    pub fn update_block_count(&mut self, count: u64, last_slot: u64)
        requires
            old(self).blocks_indexed + count <= u64::MAX,
        ensures
            final(self).blocks_indexed == old(self).blocks_indexed + count,
            final(self).last_indexed_slot == last_slot,
            final(self).transactions_indexed == old(self).transactions_indexed,
            final(self).errors_encountered == old(self).errors_encountered,
            final(self).started_at == old(self).started_at,
    {
        self.blocks_indexed = self.blocks_indexed + count;
        self.last_indexed_slot = last_slot;
        self.last_update = system_now();
    }

    /// Counts one more error.
    pub fn increment_errors(&mut self)
        requires
            old(self).errors_encountered < u64::MAX,
        ensures
            final(self).errors_encountered == old(self).errors_encountered + 1,
            final(self).transactions_indexed == old(self).transactions_indexed,
            final(self).blocks_indexed == old(self).blocks_indexed,
            final(self).last_indexed_slot == old(self).last_indexed_slot,
            final(self).started_at == old(self).started_at,
    {
        self.errors_encountered = self.errors_encountered + 1;
        self.last_update = system_now();
    }
}

} // verus!

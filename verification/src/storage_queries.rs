//! The statements the storage manager runs for its convenience queries and
//! its retention cleanup.

use vstd::prelude::*;
use crate::text::{concat_str, decimal, u64_to_decimal};

verus! {

/// The transactions of a slot, latest first.
pub fn transactions_by_slot_sql(slot: u64) -> (res: String)
    ensures
        res@ == "SELECT * FROM transactions WHERE slot = "@ + decimal(slot as nat) + " ORDER BY block_time DESC"@,
{
    let a = concat_str("SELECT * FROM transactions WHERE slot = ", u64_to_decimal(slot).as_str());
    concat_str(a.as_str(), " ORDER BY block_time DESC")
}

/// The transaction with a signature.
pub fn transaction_by_signature_sql(signature: &str) -> (res: String)
    ensures
        res@ == "SELECT * FROM transactions WHERE signature = '"@ + signature@ + "' LIMIT 1"@,
{
    let a = concat_str("SELECT * FROM transactions WHERE signature = '", signature);
    concat_str(a.as_str(), "' LIMIT 1")
}

/// The latest blocks, at most `limit`.
pub fn recent_blocks_sql(limit: u32) -> (res: String)
    ensures
        res@ == "SELECT * FROM blocks ORDER BY slot DESC LIMIT "@ + decimal(limit as nat),
{
    concat_str("SELECT * FROM blocks ORDER BY slot DESC LIMIT ", u64_to_decimal(limit as u64).as_str())
}

/// The transactions that invoked a program, latest first, at most `limit`.
pub fn transactions_by_program_sql(program_id: &str, limit: u32) -> (res: String)
    ensures
        res@ == "SELECT t.* FROM transactions t JOIN instructions i ON t.id = i.transaction_id WHERE i.program_id = '"@
            + program_id@ + "' ORDER BY t.block_time DESC LIMIT "@ + decimal(limit as nat),
{
    let a = concat_str(
        "SELECT t.* FROM transactions t JOIN instructions i ON t.id = i.transaction_id WHERE i.program_id = '",
        program_id,
    );
    let b = concat_str(a.as_str(), "' ORDER BY t.block_time DESC LIMIT ");
    concat_str(b.as_str(), u64_to_decimal(limit as u64).as_str())
}

/// The transactions that touched an account, latest first, at most `limit`.
pub fn account_activity_sql(pubkey: &str, limit: u32) -> (res: String)
    ensures
        res@ == "SELECT t.* FROM transactions t JOIN accounts a ON t.id = a.transaction_id WHERE a.pubkey = '"@
            + pubkey@ + "' ORDER BY t.block_time DESC LIMIT "@ + decimal(limit as nat),
{
    let a = concat_str(
        "SELECT t.* FROM transactions t JOIN accounts a ON t.id = a.transaction_id WHERE a.pubkey = '",
        pubkey,
    );
    let b = concat_str(a.as_str(), "' ORDER BY t.block_time DESC LIMIT ");
    concat_str(b.as_str(), u64_to_decimal(limit as u64).as_str())
}

/// Deletes the rows of a table older than the cutoff (an RFC 3339 time).
pub fn cleanup_sql(table: &str, cutoff: &str) -> (res: String)
    ensures
        res@ == "DELETE FROM "@ + table@ + " WHERE block_time < '"@ + cutoff@ + "'"@,
{
    let a = concat_str("DELETE FROM ", table);
    let b = concat_str(a.as_str(), " WHERE block_time < '");
    let c = concat_str(b.as_str(), cutoff);
    concat_str(c.as_str(), "'")
}

} // verus!

//! Indexed transactions and the filter that selects them: by slot range,
//! success, and the programs and accounts they touch, newest slot first.

use vstd::prelude::*;
use crate::indexer_config::{IndexedAccount, IndexedInstruction, TransactionFilter};
use crate::solana_key::{base58_key, key_from_base58, AccountKey};

verus! {

/// A transaction as the indexer keeps it; the block time is in seconds
/// since the Unix epoch.
#[derive(Debug)]
pub struct IndexedTransaction {
    pub id: u128,
    pub signature: String,
    pub slot: u64,
    pub block_time: Option<i64>,
    pub fee: u64,
    pub success: bool,
    pub accounts: Vec<IndexedAccount>,
    pub instructions: Vec<IndexedInstruction>,
    pub log_messages: Option<Vec<String>>,
    pub compute_units_consumed: Option<u64>,
}

/// Two transactions agree on their identity, signature, slot, time, fee,
/// outcome and compute units.
pub open spec fn tx_same(a: IndexedTransaction, b: IndexedTransaction) -> bool {
    &&& a.id == b.id
    &&& a.signature@ == b.signature@
    &&& a.slot == b.slot
    &&& a.block_time == b.block_time
    &&& a.fee == b.fee
    &&& a.success == b.success
    &&& a.compute_units_consumed == b.compute_units_consumed
    &&& a.accounts@.len() == b.accounts@.len()
    &&& a.instructions@.len() == b.instructions@.len()
}

impl Clone for IndexedTransaction {
    fn clone(&self) -> (res: Self)
        ensures
            tx_same(res, *self),
    {
        IndexedTransaction {
            id: self.id,
            signature: self.signature.clone(),
            slot: self.slot,
            block_time: self.block_time,
            fee: self.fee,
            success: self.success,
            accounts: self.accounts.clone(),
            instructions: self.instructions.clone(),
            log_messages: self.log_messages.clone(),
            compute_units_consumed: self.compute_units_consumed,
        }
    }
}

/// Whether `text` is the base58 form of one of `keys`.
pub open spec fn names_listed_key(keys: Seq<AccountKey>, text: Seq<char>) -> bool {
    match base58_key(text) {
        Some(b) => keys.contains(AccountKey { bytes: b }),
        None => false,
    }
}

/// The program filter: no programs given, or an instruction of one of them.
pub open spec fn program_ok(programs: Seq<AccountKey>, tx: IndexedTransaction) -> bool {
    programs.len() == 0
        || exists|i: int| 0 <= i < tx.instructions@.len() && names_listed_key(programs, #[trigger] tx.instructions@[i].program_id@)
}

/// The account filter: no accounts given, or one of them among the
/// transaction's accounts.
pub open spec fn account_ok(accounts: Seq<AccountKey>, tx: IndexedTransaction) -> bool {
    accounts.len() == 0
        || exists|i: int| 0 <= i < tx.accounts@.len() && names_listed_key(accounts, #[trigger] tx.accounts@[i].pubkey@)
}

/// Whether a transaction passes every part of the filter.
pub open spec fn tx_matches(f: TransactionFilter, tx: IndexedTransaction) -> bool {
    &&& (f.min_slot matches Some(m) ==> tx.slot >= m)
    &&& (f.max_slot matches Some(m) ==> tx.slot <= m)
    &&& (f.include_failed || tx.success)
    &&& program_ok(f.programs@, tx)
    &&& account_ok(f.accounts@, tx)
}

/// Whether `key` is among `keys`.
fn key_listed(keys: &Vec<AccountKey>, key: &AccountKey) -> (res: bool)
    ensures
        res == keys@.contains(*key),
{
    let mut i: usize = 0;
    while i < keys.len()
        invariant
            i <= keys@.len(),
            forall|j: int| 0 <= j < i ==> keys@[j] != *key,
        decreases keys@.len() - i,
    {
        if keys[i].same_as(key) {
            assert(keys@[i as int] == *key);
            return true;
        }
        i = i + 1;
    }
    false
}

/// Whether base58 `text` names one of `keys`.
fn text_names_key(keys: &Vec<AccountKey>, text: &str) -> (res: bool)
    ensures
        res == names_listed_key(keys@, text@),
{
    match key_from_base58(text) {
        Some(k) => key_listed(keys, &k),
        None => false,
    }
}

/// Whether the transaction passes the filter.
pub fn transaction_matches(filter: &TransactionFilter, tx: &IndexedTransaction) -> (res: bool)
    ensures
        res == tx_matches(*filter, *tx),
{
    if let Some(m) = filter.min_slot {
        if tx.slot < m {
            return false;
        }
    }
    if let Some(m) = filter.max_slot {
        if tx.slot > m {
            return false;
        }
    }
    if !filter.include_failed && !tx.success {
        return false;
    }
    if filter.programs.len() > 0 {
        let mut found = false;
        let mut i: usize = 0;
        while i < tx.instructions.len()
            invariant
                i <= tx.instructions@.len(),
                found <==> exists|j: int| 0 <= j < i && names_listed_key(filter.programs@, #[trigger] tx.instructions@[j].program_id@),
            decreases tx.instructions@.len() - i,
        {
            if text_names_key(&filter.programs, tx.instructions[i].program_id.as_str()) {
                found = true;
            }
            i = i + 1;
        }
        if !found {
            return false;
        }
    }
    if filter.accounts.len() > 0 {
        let mut found = false;
        let mut i: usize = 0;
        while i < tx.accounts.len()
            invariant
                i <= tx.accounts@.len(),
                found <==> exists|j: int| 0 <= j < i && names_listed_key(filter.accounts@, #[trigger] tx.accounts@[j].pubkey@),
            decreases tx.accounts@.len() - i,
        {
            if text_names_key(&filter.accounts, tx.accounts[i].pubkey.as_str()) {
                found = true;
            }
            i = i + 1;
        }
        if !found {
            return false;
        }
    }
    true
}

/// Position `a` comes before position `b`: a newer slot, or the same slot
/// and an earlier position.
pub open spec fn newer_first(txs: Seq<IndexedTransaction>, a: int, b: int) -> bool {
    txs[a].slot > txs[b].slot || (txs[a].slot == txs[b].slot && a < b)
}

/// Whether position `j` is listed in `r`.
pub open spec fn lists(r: Seq<usize>, j: int) -> bool {
    exists|a: int| 0 <= a < r.len() && r[a] == j
}

/// `r` lists exactly the positions of the matching transactions, newest
/// slot first and, within a slot, in their order.
pub open spec fn filtered_order(txs: Seq<IndexedTransaction>, f: TransactionFilter, r: Seq<usize>) -> bool {
    &&& forall|a: int| 0 <= a < r.len() ==> r[a] < txs.len() && tx_matches(f, txs[r[a] as int])
    &&& forall|j: int| 0 <= j < txs.len() && tx_matches(f, txs[j]) ==> lists(r, j)
    &&& forall|a: int, b: int| 0 <= a < b < r.len() ==> newer_first(txs, r[a] as int, r[b] as int)
}

/// The positions of the transactions that pass the filter, newest slot
/// first and, within a slot, in their order.
pub fn matching_positions(txs: &Vec<IndexedTransaction>, filter: &TransactionFilter) -> (res: Vec<usize>)
    ensures
        filtered_order(txs@, *filter, res@),
{
    let n = txs.len();
    let mut res: Vec<usize> = Vec::new();
    let mut i: usize = 0;
    while i < n
        invariant
            n == txs@.len(),
            i <= n,
            forall|a: int| 0 <= a < res@.len() ==> res@[a] < i && tx_matches(*filter, txs@[res@[a] as int]),
            forall|j: int| 0 <= j < i && tx_matches(*filter, txs@[j]) ==> lists(res@, j),
            forall|a: int, b: int| 0 <= a < b < res@.len() ==> newer_first(txs@, res@[a] as int, res@[b] as int),
        decreases n - i,
    {
        if transaction_matches(filter, &txs[i]) {
            let slot = txs[i].slot;
            let mut p: usize = 0;
            while p < res.len() && txs[res[p]].slot >= slot
                invariant
                    p <= res@.len(),
                    n == txs@.len(),
                    i < n,
                    slot == txs@[i as int].slot,
                    forall|a: int| 0 <= a < res@.len() ==> res@[a] < i,
                    forall|a: int| 0 <= a < p ==> txs@[res@[a] as int].slot >= slot,
                decreases res@.len() - p,
            {
                p = p + 1;
            }
            let ghost old_res = res@;
            proof {
                old_res.insert_ensures(p as int, i);
            }
            res.insert(p, i);
            proof {
                assert(res@[p as int] == i);
                assert forall|j: int| 0 <= j < i + 1 && tx_matches(*filter, txs@[j]) implies lists(res@, j) by {
                    if j == i {
                        assert(res@[p as int] == j);
                    } else {
                        assert(lists(old_res, j));
                        let a = choose|a: int| 0 <= a < old_res.len() && old_res[a] == j;
                        if a < p {
                            assert(res@[a] == j);
                        } else {
                            assert(res@[a + 1] == j);
                        }
                    }
                }
                assert forall|a: int, b: int| 0 <= a < b < res@.len()
                    implies newer_first(txs@, res@[a] as int, res@[b] as int) by {
                    if b == p {
                        assert(res@[a] == old_res[a]);
                    } else if a == p {
                        assert(res@[b] == old_res[b - 1]);
                        assert(txs@[old_res[p as int] as int].slot < slot);
                        if b - 1 > p {
                            assert(newer_first(txs@, old_res[p as int] as int, old_res[b - 1] as int));
                        }
                    } else if a < p && b < p {
                        assert(res@[a] == old_res[a] && res@[b] == old_res[b]);
                    } else if a < p {
                        assert(res@[a] == old_res[a] && res@[b] == old_res[b - 1]);
                    } else {
                        assert(res@[a] == old_res[a - 1] && res@[b] == old_res[b - 1]);
                    }
                }
            }
        }
        i = i + 1;
    }
    res
}

/// The transactions that pass the filter, newest slot first and, within a
/// slot, in their order.
pub fn get_transactions_by_filter(txs: &Vec<IndexedTransaction>, filter: &TransactionFilter) -> (res: Vec<IndexedTransaction>)
    ensures
        exists|r: Seq<usize>| {
            &&& #[trigger] filtered_order(txs@, *filter, r)
            &&& res@.len() == r.len()
            &&& forall|a: int| 0 <= a < r.len() ==> tx_same(#[trigger] res@[a], txs@[r[a] as int])
        },
{
    let positions = matching_positions(txs, filter);
    let mut out: Vec<IndexedTransaction> = Vec::new();
    let mut a: usize = 0;
    while a < positions.len()
        invariant
            filtered_order(txs@, *filter, positions@),
            a <= positions@.len(),
            out@.len() == a,
            forall|b: int| 0 <= b < a ==> tx_same(#[trigger] out@[b], txs@[positions@[b] as int]),
        decreases positions@.len() - a,
    {
        out.push(txs[positions[a]].clone());
        a = a + 1;
    }
    assert(filtered_order(txs@, *filter, positions@));
    out
}

/// Whether the client indexes a transaction: failed ones only when the
/// configuration includes them.
pub fn should_index_transaction(include_failed_transactions: bool, success: bool) -> (res: bool)
    ensures
        res == (include_failed_transactions || success),
{
    include_failed_transactions || success
}

/// The slots from `start_slot` to `end_slot`, both included.
pub fn slot_range(start_slot: u64, end_slot: u64) -> (res: Vec<u64>)
    ensures
        res@.len() == if end_slot >= start_slot { end_slot - start_slot + 1 } else { 0 },
        forall|k: int| 0 <= k < res@.len() ==> res@[k] == start_slot + k,
{
    let mut out: Vec<u64> = Vec::new();
    if end_slot < start_slot {
        return out;
    }
    let mut s: u64 = start_slot;
    loop
        invariant_except_break
            start_slot <= s <= end_slot,
            out@.len() == s - start_slot,
            forall|k: int| 0 <= k < out@.len() ==> out@[k] == start_slot + k,
        ensures
            out@.len() == end_slot - start_slot + 1,
            forall|k: int| 0 <= k < out@.len() ==> out@[k] == start_slot + k,
        decreases end_slot - s,
    {
        out.push(s);
        if s == end_slot {
            break;
        }
        s = s + 1;
    }
    out
}

/// The slot at or below which cached data is dropped: the cache size below
/// the current slot, or zero.
pub fn cleanup_cutoff(current_slot: u64, slot_cache_size: usize) -> (res: u64)
    ensures
        res == if current_slot >= slot_cache_size { (current_slot - slot_cache_size) as u64 } else { 0 },
{
    current_slot.saturating_sub(slot_cache_size as u64)
}

} // verus!

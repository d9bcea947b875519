//! Account keys: 32-byte public keys, with their base58 text form.

use vstd::prelude::*;
use std::str::FromStr;
use solana_sdk::pubkey::Pubkey;

verus! {

/// A 32-byte account or program key.
#[derive(Debug, Clone, Copy, Eq, Hash)]
pub struct AccountKey {
    pub bytes: [u8; 32],
}

/// What `Pubkey::from_str` makes of a text: the key's bytes, or `None`
/// where the text is not the base58 form of 32 bytes.
pub uninterp spec fn base58_key(text: Seq<char>) -> Option<[u8; 32]>;

/// The base58 text of a key, as `Display` of `Pubkey` writes it.
pub uninterp spec fn base58_text(bytes: [u8; 32]) -> Seq<char>;

/// `solana_sdk::pubkey::Pubkey::from_str`: decodes base58 text into the
/// key's 32 bytes. The contract names the result; it does not state the
/// decoding.
#[verifier::external_body]
pub fn key_from_base58(text: &str) -> (res: Option<AccountKey>)
    ensures
        match base58_key(text@) {
            Some(b) => res == Some(AccountKey { bytes: b }),
            None => res is None,
        },
{
    Pubkey::from_str(text).ok().map(|k| AccountKey { bytes: k.to_bytes() })
}

/// `Display` of `solana_sdk::pubkey::Pubkey`: the base58 text of the key.
/// The contract names the result; it does not state the encoding.
#[verifier::external_body]
pub fn key_to_base58(key: &AccountKey) -> (res: String)
    ensures
        res@ == base58_text(key.bytes),
{
    Pubkey::new_from_array(key.bytes).to_string()
}

/// `solana_sdk::pubkey::Pubkey::new_unique`: a key from a process-wide
/// counter, distinct from the keys it handed out before. Nothing is stated
/// of its bytes.
#[verifier::external_body]
pub fn new_unique_key() -> (res: AccountKey) {
    AccountKey { bytes: Pubkey::new_unique().to_bytes() }
}

impl AccountKey {
    /// The key with the given bytes.
    pub fn new_from_array(bytes: [u8; 32]) -> (res: AccountKey)
        ensures
            res.bytes == bytes,
    {
        AccountKey { bytes }
    }

    /// Whether two keys are the same.
    pub fn same_as(&self, other: &AccountKey) -> (res: bool)
        ensures
            res <==> *self == *other,
    {
        let mut i: usize = 0;
        while i < 32
            invariant
                i <= 32,
                forall|j: int| 0 <= j < i ==> self.bytes[j] == other.bytes[j],
            decreases 32 - i,
        {
            if self.bytes[i] != other.bytes[i] {
                return false;
            }
            i = i + 1;
        }
        proof {
            broadcast use vstd::array::axiom_array_ext_equal;
            assert(self.bytes =~= other.bytes);
        }
        true
    }
}

impl PartialEq for AccountKey {
    fn eq(&self, other: &Self) -> (res: bool) {
        self.same_as(other)
    }
}

impl vstd::std_specs::cmp::PartialEqSpecImpl for AccountKey {
    open spec fn obeys_eq_spec() -> bool {
        true
    }

    open spec fn eq_spec(&self, other: &AccountKey) -> bool {
        *self == *other
    }
}

} // verus!

//! Hash functions that place keys and virtual nodes on the ring.

use vstd::prelude::*;
use sha2::Digest;
use std::hash::Hash;
use std::hash::Hasher;

verus! {

/// The hash functions a ring can be configured with.
#[derive(Debug, Clone, Copy, PartialEq, Eq, Structural)]
pub enum HashFunctionType {
    Sha256,
    AHash,
    XxHash,
}

/// The SHA-256 digest of a byte string.
pub uninterp spec fn sha256_digest(data: Seq<u8>) -> Seq<u8>;

/// `sha2::Sha256::digest`: the 32-byte SHA-256 digest of `data`.
/// The contract names the digest and states its length; the digest itself is
/// not written out.
#[verifier::external_body]
fn sha256(data: &[u8]) -> (res: Vec<u8>)
    ensures
        res@ == sha256_digest(data@),
        res@.len() == 32,
{
    sha2::Sha256::digest(data).to_vec()
}

/// `ahash::AHasher::default()` fed with `data` through `Hash for [u8]`.
/// With ahash's default features the hasher's keys are drawn at random once
/// per process, so nothing is stated of the value returned.
#[verifier::external_body]
fn ahash_bytes(data: &[u8]) -> (res: u64) {
    let mut hasher = ahash::AHasher::default();
    data.hash(&mut hasher);
    hasher.finish()
}

/// 256 to the power `n`.
pub open spec fn pow256(n: nat) -> nat
    decreases n,
{
    if n == 0 { 1 } else { 256 * pow256((n - 1) as nat) }
}

/// The big-endian value of a byte string.
pub open spec fn be_value(s: Seq<u8>) -> nat
    decreases s.len(),
{
    if s.len() == 0 { 0 } else { (be_value(s.drop_last()) * 256 + s.last()) as nat }
}

/// The ring position SHA-256 gives a key: the first eight digest bytes read
/// as a big-endian integer.
pub open spec fn sha256_position(key: Seq<u8>) -> u64 {
    be_value(sha256_digest(key).take(8)) as u64
}

proof fn lemma_be_value_bound(s: Seq<u8>)
    ensures
        be_value(s) < pow256(s.len()),
    decreases s.len(),
{
    if s.len() > 0 {
        lemma_be_value_bound(s.drop_last());
        let x = be_value(s.drop_last());
        let p = pow256((s.len() - 1) as nat);
        let b = s.last();
        assert(x * 256 + b < p * 256) by (nonlinear_arith)
            requires x < p, b < 256;
    }
}

proof fn lemma_pow256_eight()
    ensures
        pow256(8) == 0x1_0000_0000_0000_0000,
{
    reveal_with_fuel(pow256, 9);
}

/// Reads the first eight bytes of `bytes` as a big-endian integer.
fn be_u64_prefix(bytes: &Vec<u8>) -> (res: u64)
    requires
        bytes@.len() >= 8,
    ensures
        res == be_value(bytes@.take(8)),
{
    let mut acc: u64 = 0;
    let mut i: usize = 0;
    while i < 8
        invariant
            i <= 8,
            bytes@.len() >= 8,
            acc == be_value(bytes@.take(i as int)),
        decreases 8 - i,
    {
        proof {
            lemma_be_value_bound(bytes@.take(i as int));
            lemma_pow256_eight();
            assert(bytes@.take(i as int + 1).drop_last() =~= bytes@.take(i as int));
            let p = pow256(i as nat);
            assert(pow256(i as nat + 1) == 256 * p);
            assert(pow256(i as nat) * 256 <= pow256(8)) by {
                lemma_pow256_mono(i as nat + 1, 8);
            }
        }
        let b = bytes[i];
        acc = acc * 256 + b as u64;
        i = i + 1;
    }
    acc
}

proof fn lemma_pow256_mono(a: nat, b: nat)
    requires
        a <= b,
    ensures
        pow256(a) <= pow256(b),
    decreases b,
{
    if a < b {
        lemma_pow256_mono(a, (b - 1) as nat);
    }
}

/// A hash function placing byte strings on the 64-bit ring.
pub trait HashFunction {
    /// The ring position of `key`.
    fn hash(&self, key: &[u8]) -> u64;

    /// The function's name.
    fn name(&self) -> &'static str;
}

/// SHA-256, truncated to its first eight bytes.
#[derive(Debug, Clone)]
pub struct Sha256HashFunction;

/// AHash (fast, non-cryptographic).
#[derive(Debug, Clone)]
pub struct AHashFunction;

/// The "xxhash" choice, computed with AHash.
#[derive(Debug, Clone)]
pub struct XxHashFunction;

impl HashFunction for Sha256HashFunction {
    fn hash(&self, key: &[u8]) -> (res: u64)
        ensures
            res == sha256_position(key@),
    {
        let digest = sha256(key);
        be_u64_prefix(&digest)
    }

    fn name(&self) -> (res: &'static str)
        ensures
            res@ == "sha256"@,
    {
        "sha256"
    }
}

impl HashFunction for AHashFunction {
    fn hash(&self, key: &[u8]) -> (res: u64) {
        ahash_bytes(key)
    }

    fn name(&self) -> (res: &'static str)
        ensures
            res@ == "ahash"@,
    {
        "ahash"
    }
}

impl HashFunction for XxHashFunction {
    fn hash(&self, key: &[u8]) -> (res: u64) {
        ahash_bytes(key)
    }

    fn name(&self) -> (res: &'static str)
        ensures
            res@ == "xxhash"@,
    {
        "xxhash"
    }
}

/// The name of each hash function type.
pub open spec fn spec_hash_function_name(t: HashFunctionType) -> Seq<char> {
    match t {
        HashFunctionType::Sha256 => "sha256"@,
        HashFunctionType::AHash => "ahash"@,
        HashFunctionType::XxHash => "xxhash"@,
    }
}

/// Hashes `key` with the function of the given type. For SHA-256 the
/// position is exact; AHash positions are fixed per process only.
pub fn hash_with(hash_type: HashFunctionType, key: &[u8]) -> (res: u64)
    ensures
        hash_type == HashFunctionType::Sha256 ==> res == sha256_position(key@),
{
    match hash_type {
        HashFunctionType::Sha256 => Sha256HashFunction.hash(key),
        HashFunctionType::AHash => AHashFunction.hash(key),
        HashFunctionType::XxHash => XxHashFunction.hash(key),
    }
}

/// The name of the hash function of the given type.
pub fn hash_function_name_of(hash_type: HashFunctionType) -> (res: &'static str)
    ensures
        res@ == spec_hash_function_name(hash_type),
{
    match hash_type {
        HashFunctionType::Sha256 => "sha256",
        HashFunctionType::AHash => "ahash",
        HashFunctionType::XxHash => "xxhash",
    }
}

/// Creates the hash function of the given type.
pub fn create_hash_function(hash_type: HashFunctionType) -> (res: Box<dyn HashFunction>) {
    match hash_type {
        HashFunctionType::Sha256 => Box::new(Sha256HashFunction),
        HashFunctionType::AHash => Box::new(AHashFunction),
        HashFunctionType::XxHash => Box::new(XxHashFunction),
    }
}

} // verus!

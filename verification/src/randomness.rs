//! The seed that drives breeding: a 128-bit Blake2 digest of values that
//! every replica agrees on.

use frame_support::{Blake2_128, StorageHasher};
use vstd::bytes::{
    lemma_auto_spec_u32_to_from_le_bytes, lemma_auto_spec_u64_to_from_le_bytes, spec_u32_to_le_bytes,
    spec_u64_to_le_bytes, u32_to_le_bytes, u64_to_le_bytes,
};
use vstd::prelude::*;

verus! {

/// The 128-bit Blake2b digest of `data`, as `frame_support::Blake2_128`
/// computes it.
pub uninterp spec fn blake2_128_digest(data: Seq<u8>) -> Seq<u8>;

/// Calls `<frame_support::Blake2_128 as StorageHasher>::hash`. Trusted: the
/// sixteen bytes returned are the Blake2b digest of `data`, a function of
/// the bytes of `data` alone.
#[verifier::external_body]
fn blake2_128(data: &[u8]) -> (digest: [u8; 16])
    ensures
        digest@ == blake2_128_digest(data@),
{
    Blake2_128::hash(data)
}

/// The bytes that are hashed into a seed: the entropy of the execution
/// context, then the caller and the call index, both little-endian.
pub open spec fn seed_preimage(entropy: Seq<u8>, who: u64, call_index: u32) -> Seq<u8> {
    entropy + spec_u64_to_le_bytes(who) + spec_u32_to_le_bytes(call_index)
}

/// The seed of one call, given the digest function.
pub open spec fn seed_of(entropy: Seq<u8>, who: u64, call_index: u32) -> Seq<u8> {
    blake2_128_digest(seed_preimage(entropy, who, call_index))
}

/// Under one entropy, two calls that differ in the caller or in the index
/// hash different bytes: the seeds of one execution context can only
/// coincide where two inputs have the same digest.
pub proof fn lemma_seed_inputs_are_distinct(entropy: Seq<u8>, who_1: u64, index_1: u32, who_2: u64, index_2: u32)
    requires
        seed_preimage(entropy, who_1, index_1) == seed_preimage(entropy, who_2, index_2),
    ensures
        who_1 == who_2,
        index_1 == index_2,
{
    lemma_auto_spec_u64_to_from_le_bytes();
    lemma_auto_spec_u32_to_from_le_bytes();
    let n = entropy.len() as int;
    let first = seed_preimage(entropy, who_1, index_1);
    let second = seed_preimage(entropy, who_2, index_2);
    assert(first.subrange(n, n + 8) =~= spec_u64_to_le_bytes(who_1));
    assert(second.subrange(n, n + 8) =~= spec_u64_to_le_bytes(who_2));
    assert(first.subrange(n + 8, n + 12) =~= spec_u32_to_le_bytes(index_1));
    assert(second.subrange(n + 8, n + 12) =~= spec_u32_to_le_bytes(index_2));
}

/// Lays out the bytes of `seed_preimage`.
pub fn encode_seed_input(entropy: &[u8], who: u64, call_index: u32) -> (bytes: Vec<u8>)
    ensures
        bytes@ == seed_preimage(entropy@, who, call_index),
{
    let mut bytes: Vec<u8> = Vec::new();
    let mut i: usize = 0;
    while i < entropy.len()
        invariant
            i <= entropy.len(),
            bytes@ == entropy@.take(i as int),
        decreases entropy.len() - i,
    {
        bytes.push(entropy[i]);
        i += 1;
    }
    assert(entropy@.take(i as int) == entropy@);
    let mut who_bytes = u64_to_le_bytes(who);
    bytes.append(&mut who_bytes);
    let mut index_bytes = u32_to_le_bytes(call_index);
    bytes.append(&mut index_bytes);
    bytes
}

/// Derives the seed of one call from the entropy that all replicas share,
/// the caller and the index of the call within the execution context.
pub fn derive_seed(entropy: &[u8], who: u64, call_index: u32) -> (seed: [u8; 16])
    ensures
        seed@ == seed_of(entropy@, who, call_index),
{
    let bytes = encode_seed_input(entropy, who, call_index);
    blake2_128(bytes.as_slice())
}

} // verus!

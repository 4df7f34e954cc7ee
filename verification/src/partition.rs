//! Key-to-partition mapping compatible with the default partitioner of writers.

use vstd::prelude::*;
use vstd::string::*;

verus! {

/// Seed that the default partitioner feeds to its hash.
pub const KAFKA_SEED: u32 = 0x9747b28c;

/// The 32-bit MurmurHash2 (little-endian reading) of `data` under `seed`.
pub uninterp spec fn murmur2_hash(data: Seq<u8>, seed: u32) -> u32;

/// Calls `murmur2::murmur2`. The contract claims only that the hash is a
/// function of the bytes and the seed; nothing about its value is assumed.
#[verifier::external_body]
fn murmur2_of(data: &[u8], seed: u32) -> (hash: u32)
    ensures
        hash == murmur2_hash(data@, seed),
{
    murmur2::murmur2(data, seed)
}

/// The partition that a hash selects among `partitions` partitions: the hash
/// without its sign bit, reduced modulo the partition count.
pub open spec fn partition_of_hash(hash: u32, partitions: nat) -> nat {
    ((hash & 0x7fff_ffffu32) as nat) % partitions
}

/// The partition in which a writer with default partitioning places `key`.
pub open spec fn partition_of_key(key: Seq<char>, partitions: nat) -> nat {
    partition_of_hash(murmur2_hash(vstd::utf8::encode_utf8(key), KAFKA_SEED), partitions)
}

/// Reduces a key hash to a partition index.
pub fn partition_for_hash(hash: u32, partitions: usize) -> (partition: usize)
    requires
        partitions > 0,
    ensures
        partition == partition_of_hash(hash, partitions as nat),
        partition < partitions,
{
    let positive: u32 = hash & 0x7fff_ffff;
    let wide: u64 = positive as u64;
    let count: u64 = partitions as u64;
    let reduced: u64 = wide % count;
    reduced as usize
}

/// Implementation of the partitioner algorithm used by the default partitioner.
pub fn partition_for_key(key: &str, partitions: usize) -> (partition: usize)
    requires
        partitions > 0,
    ensures
        partition == partition_of_key(key@, partitions as nat),
        partition < partitions,
{
    let hash = murmur2_of(key.as_bytes(), KAFKA_SEED);
    partition_for_hash(hash, partitions)
}

/// Every key lands in an existing partition.
pub proof fn lemma_partition_in_range(key: Seq<char>, partitions: nat)
    requires
        partitions > 0,
    ensures
        partition_of_key(key, partitions) < partitions,
{
}

} // verus!

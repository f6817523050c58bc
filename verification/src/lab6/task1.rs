//! The large-file check: a deterministic byte pattern written through the
//! triple-indirect range, an FNV-1a digest of what is read back, and the
//! throughput figure.
use vstd::prelude::*;

verus! {

/// The seed of the pattern.
pub const PATTERN_SEED: u64 = 0x6c61_6236_5f74_6173;
pub const FNV_OFFSET_BASIS: u64 = 0xcbf2_9ce4_8422_2325;
pub const FNV_PRIME: u64 = 0x0000_0001_0000_01b3;

/// Throughput in KiB per second; 0 for a zero duration.
pub fn kib_per_second(bytes: u64, duration_us: u64) -> (r: u64)
    requires
        bytes * 1_000_000 <= u64::MAX,
    ensures
        duration_us == 0 ==> r == 0,
        duration_us != 0 ==> r == (bytes * 1_000_000 / 1024) / duration_us as int,
{
    if duration_us == 0 {
        return 0;
    }
    (bytes * 1_000_000 / 1024) / duration_us
}

/// The SplitMix64 finaliser.
pub open spec fn splitmix(value: u64) -> u64 {
    let z0 = value.wrapping_add(0x9e37_79b9_7f4a_7c15);
    let z1 = (z0 ^ (z0 >> 30u64)).wrapping_mul(0xbf58_476d_1ce4_e5b9);
    let z2 = (z1 ^ (z1 >> 27u64)).wrapping_mul(0x94d0_49bb_1331_11eb);
    z2 ^ (z2 >> 31u64)
}

/// SplitMix64 of `value`.
pub fn splitmix64(value: u64) -> (r: u64)
    ensures
        r == splitmix(value),
{
    let mut z = value.wrapping_add(0x9e37_79b9_7f4a_7c15);
    z = (z ^ (z >> 30u64)).wrapping_mul(0xbf58_476d_1ce4_e5b9);
    z = (z ^ (z >> 27u64)).wrapping_mul(0x94d0_49bb_1331_11eb);
    z ^ (z >> 31u64)
}

/// Byte `k` (little-endian) of `x`.
pub open spec fn le_byte(x: u64, k: int) -> u8 {
    ((x >> ((8 * k) as u64)) & 0xff) as u8
}

/// The pattern's byte at position `i` of a buffer that starts at file
/// offset `base`: the buffer is filled eight bytes at a time, each group
/// with the little-endian bytes of the mixed index of its first byte's
/// 8-byte word.
pub open spec fn pattern_byte(base: u64, i: int) -> u8 {
    le_byte(splitmix(PATTERN_SEED ^ ((base + (i - i % 8)) / 8) as u64), i % 8)
}

/// Fills `buffer` with the pattern for file offset `base_offset`.
pub fn fill_pattern(buffer: &mut [u8], base_offset: u64)
    requires
        base_offset + old(buffer)@.len() <= u64::MAX,
    ensures
        final(buffer)@.len() == old(buffer)@.len(),
        forall|i: int| 0 <= i < final(buffer)@.len() ==> #[trigger] final(buffer)@[i] == pattern_byte(base_offset, i),
{
    let len = buffer.len();
    let mut index: usize = 0;
    while index < len
        invariant
            len == buffer@.len(),
            base_offset + len <= u64::MAX,
            index <= len,
            index % 8 == 0 || index == len,
            forall|i: int| 0 <= i < index ==> #[trigger] buffer@[i] == pattern_byte(base_offset, i),
        decreases len - index,
    {
        let word_index = (base_offset + index as u64) / 8;
        let value = splitmix64(PATTERN_SEED ^ word_index);
        let copy_len = if 8 < len - index { 8 } else { len - index };
        let mut k: usize = 0;
        while k < copy_len
            invariant
                len == buffer@.len(),
                index % 8 == 0,
                index + copy_len <= len,
                copy_len <= 8,
                k <= copy_len,
                value == splitmix(PATTERN_SEED ^ word_index),
                word_index == (base_offset + index) / 8,
                forall|i: int| 0 <= i < index + k ==> #[trigger] buffer@[i] == pattern_byte(base_offset, i),
            decreases copy_len - k,
        {
            let shift: u64 = 8 * (k as u64);
            let byte = ((value >> shift) & 0xff) as u8;
            buffer[index + k] = byte;
            proof {
                let i = index + k;
                assert(i % 8 == k && i - i % 8 == index) by (nonlinear_arith)
                    requires i == index + k, index % 8 == 0, k < 8;
            }
            k += 1;
        }
        index += copy_len;
    }
}

/// One FNV-1a step.
pub open spec fn fnv_step(hash: u64, byte: u8) -> u64 {
    (hash ^ (byte as u64)).wrapping_mul(FNV_PRIME)
}

/// FNV-1a of `bytes`, continuing from `hash`.
pub open spec fn fnv1a(hash: u64, bytes: Seq<u8>) -> u64
    decreases bytes.len(),
{
    if bytes.len() == 0 { hash } else { fnv_step(fnv1a(hash, bytes.drop_last()), bytes.last()) }
}

/// Continues an FNV-1a digest over `bytes`.
pub fn fnv1a_update(hash: u64, bytes: &[u8]) -> (r: u64)
    ensures
        r == fnv1a(hash, bytes@),
{
    let mut h = hash;
    let mut i: usize = 0;
    while i < bytes.len()
        invariant
            i <= bytes.len(),
            h == fnv1a(hash, bytes@.subrange(0, i as int)),
        decreases bytes.len() - i,
    {
        proof {
            assert(bytes@.subrange(0, i + 1).drop_last() =~= bytes@.subrange(0, i as int));
        }
        h = (h ^ bytes[i] as u64).wrapping_mul(FNV_PRIME);
        i += 1;
    }
    assert(bytes@.subrange(0, bytes.len() as int) =~= bytes@);
    h
}

} // verus!

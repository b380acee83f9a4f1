//! The 128-bit x64 Murmur3 hash with seed 0, in the variant that the servers
//! compute: the bytes of the last, incomplete block are sign-extended before
//! they are mixed in.

use vstd::prelude::*;

verus! {

pub const C1: u64 = 0x87c3_7b91_1142_53d5;

pub const C2: u64 = 0x4cf5_ad43_2745_937f;

/// Rotation of a 64-bit word to the left by `r` bits, for `0 < r < 64`.
pub open spec fn rotl64(x: u64, r: u64) -> u64 {
    (x << r) | (x >> ((64 - r) as u64))
}

/// The 64-bit word that the eight bytes from `at` on spell in little-endian order.
pub open spec fn le_word(bytes: Seq<u8>, at: int) -> u64 {
    (bytes[at] as u64) | ((bytes[at + 1] as u64) << 8u64) | ((bytes[at + 2] as u64) << 16u64) | ((
    bytes[at + 3] as u64) << 24u64) | ((bytes[at + 4] as u64) << 32u64) | ((bytes[at + 5] as u64)
        << 40u64) | ((bytes[at + 6] as u64) << 48u64) | ((bytes[at + 7] as u64) << 56u64)
}

/// A byte widened to 64 bits with its sign.
pub open spec fn sign_extended(b: u8) -> u64 {
    b as i8 as i64 as u64
}

/// The word made of the `count` bytes from `from` on, each sign-extended and
/// moved to its place in little-endian order.
pub open spec fn tail_word(bytes: Seq<u8>, from: int, count: nat) -> u64
    decreases count,
{
    if count == 0 {
        0
    } else {
        tail_word(bytes, from, (count - 1) as nat) ^ (sign_extended(bytes[from + count - 1]) << ((8
            * (count - 1)) as u64))
    }
}

/// The first word of a block or of the tail, made ready for mixing.
pub open spec fn scramble1(k1: u64) -> u64 {
    rotl64(k1.wrapping_mul(C1), 31).wrapping_mul(C2)
}

/// The second word of a block or of the tail, made ready for mixing.
pub open spec fn scramble2(k2: u64) -> u64 {
    rotl64(k2.wrapping_mul(C2), 33).wrapping_mul(C1)
}

/// The state after one more full block with the words `k1` and `k2`.
pub open spec fn mix_block(h: (u64, u64), k1: u64, k2: u64) -> (u64, u64) {
    let h1 = h.0 ^ scramble1(k1);
    let h1 = rotl64(h1, 27).wrapping_add(h.1).wrapping_mul(5).wrapping_add(0x52dc_e729);
    let h2 = h.1 ^ scramble2(k2);
    let h2 = rotl64(h2, 31).wrapping_add(h1).wrapping_mul(5).wrapping_add(0x3849_5ab5);
    (h1, h2)
}

/// The state after the first `n` full blocks of `bytes`, starting from seed 0.
pub open spec fn after_blocks(bytes: Seq<u8>, n: nat) -> (u64, u64)
    decreases n,
{
    if n == 0 {
        (0, 0)
    } else {
        mix_block(
            after_blocks(bytes, (n - 1) as nat),
            le_word(bytes, 16 * (n - 1)),
            le_word(bytes, 16 * (n - 1) + 8),
        )
    }
}

/// The state after the bytes that follow the last full block.
pub open spec fn mix_tail(h: (u64, u64), bytes: Seq<u8>) -> (u64, u64) {
    let start: int = 16 * (bytes.len() as int / 16);
    let rest: int = bytes.len() as int % 16;
    let h2 = if rest > 8 {
        h.1 ^ scramble2(tail_word(bytes, start + 8, (rest - 8) as nat))
    } else {
        h.1
    };
    let h1 = if rest > 8 {
        h.0 ^ scramble1(tail_word(bytes, start, 8))
    } else if rest > 0 {
        h.0 ^ scramble1(tail_word(bytes, start, rest as nat))
    } else {
        h.0
    };
    (h1, h2)
}

/// The final avalanche of one word.
pub open spec fn fmix(k: u64) -> u64 {
    let k = k ^ (k >> 33u64);
    let k = k.wrapping_mul(0xff51_afd7_ed55_8ccd);
    let k = k ^ (k >> 33u64);
    let k = k.wrapping_mul(0xc4ce_b9fe_1a85_ec53);
    k ^ (k >> 33u64)
}

/// The two words of the hash, from the state after all bytes and their number.
pub open spec fn finalize(h: (u64, u64), len: u64) -> (u64, u64) {
    let h1 = h.0 ^ len;
    let h2 = h.1 ^ len;
    let h1 = h1.wrapping_add(h2);
    let h2 = h2.wrapping_add(h1);
    let h1 = fmix(h1);
    let h2 = fmix(h2);
    let h1 = h1.wrapping_add(h2);
    let h2 = h2.wrapping_add(h1);
    (h1, h2)
}

/// The two 64-bit words of the hash of `bytes`.
pub open spec fn murmur3_x64_128(bytes: Seq<u8>) -> (u64, u64) {
    finalize(
        mix_tail(after_blocks(bytes, bytes.len() / 16), bytes),
        bytes.len() as u64,
    )
}

fn rotate_left(x: u64, r: u64) -> (rotated: u64)
    requires
        0 < r < 64,
    ensures
        rotated == rotl64(x, r),
{
    (x << r) | (x >> (64 - r))
}

fn read_le_word(data: &[u8], at: usize) -> (word: u64)
    requires
        at + 8 <= data.len(),
    ensures
        word == le_word(data@, at as int),
{
    (data[at] as u64) | ((data[at + 1] as u64) << 8u64) | ((data[at + 2] as u64) << 16u64) | ((
    data[at + 3] as u64) << 24u64) | ((data[at + 4] as u64) << 32u64) | ((data[at + 5] as u64)
        << 40u64) | ((data[at + 6] as u64) << 48u64) | ((data[at + 7] as u64) << 56u64)
}

fn read_tail_word(data: &[u8], from: usize, count: usize) -> (word: u64)
    requires
        count <= 8,
        from + count <= data.len(),
    ensures
        word == tail_word(data@, from as int, count as nat),
{
    let mut word: u64 = 0;
    let mut i: usize = 0;
    while i < count
        invariant
            i <= count <= 8,
            from + count <= data.len(),
            word == tail_word(data@, from as int, i as nat),
        decreases count - i,
    {
        let b: u8 = data[from + i];
        word = word ^ ((b as i8 as i64 as u64) << ((8 * i) as u64));
        i = i + 1;
    }
    word
}

fn scramble_first(k1: u64) -> (k: u64)
    ensures
        k == scramble1(k1),
{
    rotate_left(k1.wrapping_mul(C1), 31).wrapping_mul(C2)
}

fn scramble_second(k2: u64) -> (k: u64)
    ensures
        k == scramble2(k2),
{
    rotate_left(k2.wrapping_mul(C2), 33).wrapping_mul(C1)
}

fn final_mix(k: u64) -> (mixed: u64)
    ensures
        mixed == fmix(k),
{
    let k = k ^ (k >> 33u64);
    let k = k.wrapping_mul(0xff51_afd7_ed55_8ccd);
    let k = k ^ (k >> 33u64);
    let k = k.wrapping_mul(0xc4ce_b9fe_1a85_ec53);
    k ^ (k >> 33u64)
}

/// Hashes `data` and returns both words of the result.
pub fn hash3_x64_128(data: &[u8]) -> (hash: (u64, u64))
    ensures
        hash == murmur3_x64_128(data@),
{
    let len: usize = data.len();
    let blocks: usize = len / 16;
    let mut h1: u64 = 0;
    let mut h2: u64 = 0;
    let mut i: usize = 0;
    while i < blocks
        invariant
            i <= blocks,
            blocks == data.len() / 16,
            (h1, h2) == after_blocks(data@, i as nat),
        decreases blocks - i,
    {
        let k1 = read_le_word(data, 16 * i);
        let k2 = read_le_word(data, 16 * i + 8);
        h1 = h1 ^ scramble_first(k1);
        h1 = rotate_left(h1, 27).wrapping_add(h2).wrapping_mul(5).wrapping_add(0x52dc_e729);
        h2 = h2 ^ scramble_second(k2);
        h2 = rotate_left(h2, 31).wrapping_add(h1).wrapping_mul(5).wrapping_add(0x3849_5ab5);
        i = i + 1;
    }
    let start: usize = 16 * blocks;
    let rest: usize = len % 16;
    if rest > 8 {
        h2 = h2 ^ scramble_second(read_tail_word(data, start + 8, rest - 8));
        h1 = h1 ^ scramble_first(read_tail_word(data, start, 8));
    } else if rest > 0 {
        h1 = h1 ^ scramble_first(read_tail_word(data, start, rest));
    }
    let n: u64 = len as u64;
    h1 = h1 ^ n;
    h2 = h2 ^ n;
    h1 = h1.wrapping_add(h2);
    h2 = h2.wrapping_add(h1);
    h1 = final_mix(h1);
    h2 = final_mix(h2);
    h1 = h1.wrapping_add(h2);
    h2 = h2.wrapping_add(h1);
    (h1, h2)
}

} // verus!

//! The mathematical model of the generator.
//!
//! Everything here is specification-only: the state of the generator as a
//! triple of 64-bit words, the step function, the SplitMix64 seed expander,
//! the PCG-based expansion of a 64-bit seed into a byte seed, the
//! stream-partitioning offset, and the little-endian byte stream produced by
//! `fill_bytes`. The executable code in `splitmix` and `rng` is verified
//! against these functions.

use vstd::prelude::*;

verus! {

/// The odd golden-ratio-derived constant added to the SplitMix64 accumulator
/// at every draw.
pub const GOLDEN_GAMMA: u64 = 0x9e37_79b9_7f4a_7c15;

/// First odd multiplier of the SplitMix64 output mixer.
pub const SM_MUL_1: u64 = 0xbf58_476d_1ce4_e5b9;

/// Second odd multiplier of the SplitMix64 output mixer.
pub const SM_MUL_2: u64 = 0x94d0_49bb_1331_11eb;

/// The odd increment of the generator's fast-loop word. Because it is odd,
/// the fast-loop word visits all 2^64 values before repeating, which bounds
/// the generator's period from below by 2^64 (see `laws`).
pub const LOOP_INCREMENT: u64 = 0x9999_9999_9999_9999;

/// Multiplier of the PCG step used to expand a 64-bit seed into a byte seed.
pub const PCG_MUL: u64 = 0x5851_f42d_4c95_7f2d;

/// Increment of the PCG step used to expand a 64-bit seed into a byte seed.
pub const PCG_INC: u64 = 0xa176_54e4_6fbe_17f3;

/// Number of discarded steps after seeding, diffusing initial correlations.
pub const WARMUP_ROUNDS: u64 = 16;

/// The generator's internal state: three 64-bit words.
pub struct GenState {
    pub fast_loop: u64,
    pub mix: u64,
    pub loop_mix: u64,
}

/// Left rotation of a 64-bit word by `k` bits, for `0 < k < 64`.
pub open spec fn rotl64(x: u64, k: u64) -> u64
    recommends
        0 < k < 64,
{
    (x << k) | (x >> ((64 - k) as u64))
}

/// Right rotation of a 32-bit word by `k` bits, for `k < 32`.
pub open spec fn rotr32(x: u32, k: u32) -> u32
    recommends
        k < 32,
{
    if k == 0 {
        x
    } else {
        (x >> k) | (x << ((32 - k) as u32))
    }
}

/// One step of the generator: the new state as a function of the old one.
pub open spec fn step_state(s: GenState) -> GenState {
    GenState {
        fast_loop: s.fast_loop.wrapping_add(LOOP_INCREMENT),
        mix: rotl64(s.mix, 16).wrapping_add(rotl64(s.loop_mix, 40)),
        loop_mix: s.fast_loop ^ s.mix,
    }
}

/// The word returned by one step, a function of the state before the step.
pub open spec fn step_output(s: GenState) -> u64 {
    s.mix.wrapping_add(s.loop_mix)
}

/// The state after `n` steps from `s`.
pub open spec fn nth_state(s: GenState, n: nat) -> GenState
    decreases n,
{
    if n == 0 {
        s
    } else {
        step_state(nth_state(s, (n - 1) as nat))
    }
}

/// The `n`-th output word (counting from 0) of a generator started in `s`.
pub open spec fn nth_output(s: GenState, n: nat) -> u64 {
    step_output(nth_state(s, n))
}

/// The SplitMix64 accumulator step.
pub open spec fn sm_step(acc: u64) -> u64 {
    acc.wrapping_add(GOLDEN_GAMMA)
}

/// The SplitMix64 output mixer: two rounds of xor-shift-multiply and a final
/// xor-shift.
pub open spec fn sm_mix(z: u64) -> u64 {
    let a: u64 = (z ^ (z >> 30u64)).wrapping_mul(SM_MUL_1);
    let b: u64 = (a ^ (a >> 27u64)).wrapping_mul(SM_MUL_2);
    b ^ (b >> 31u64)
}

/// The SplitMix64 accumulator after `n` draws from the seed.
pub open spec fn sm_acc(seed: u64, n: nat) -> u64
    decreases n,
{
    if n == 0 {
        seed
    } else {
        sm_step(sm_acc(seed, (n - 1) as nat))
    }
}

/// The `n`-th word (counting from 0) drawn from a SplitMix64 expander
/// initialised with `seed`.
pub open spec fn sm_out(seed: u64, n: nat) -> u64 {
    sm_mix(sm_acc(seed, n + 1))
}

/// The `k`-th candidate state triple drawn during seeding.
pub open spec fn draw_triple(seed: u64, k: nat) -> (u64, u64, u64) {
    (sm_out(seed, 3 * k), sm_out(seed, 3 * k + 1), sm_out(seed, 3 * k + 2))
}

/// Whether all three state words are zero: the degenerate state that seeding
/// rejects.
pub open spec fn is_all_zero(s: GenState) -> bool {
    s.fast_loop == 0 && s.mix == 0 && s.loop_mix == 0
}

/// The initial state built from a drawn triple, with the stream offset added
/// (wrapping) to the fast-loop word only.
pub open spec fn offset_init(t: (u64, u64, u64), off: u64) -> GenState {
    GenState { fast_loop: t.0.wrapping_add(off), mix: t.1, loop_mix: t.2 }
}

/// The state of a freshly constructed generator: the first drawn triple
/// (never all-zero; see `laws::lemma_draw_triple_not_all_zero`), offset by
/// `off` on the fast-loop word, after the fixed warm-up.
pub open spec fn seeded_state(seed: u64, off: u64) -> GenState {
    nth_state(offset_init(draw_triple(seed, 0), off), WARMUP_ROUNDS as nat)
}

/// The fast-loop offset of stream `stream_index` out of `total_streams`:
/// `stream_index * floor((2^64 - 1) / total_streams) * LOOP_INCREMENT`,
/// reduced modulo 2^64. Streams are thereby placed at evenly spaced starting
/// points along the full 2^64 fast-loop cycle.
pub open spec fn stream_offset(stream_index: u64, total_streams: u64) -> u64
    recommends
        1 <= total_streams,
        stream_index < total_streams,
{
    if total_streams > 1 {
        (((stream_index as int) * ((u64::MAX as int) / (total_streams as int)) * (
        LOOP_INCREMENT as int)) % 0x1_0000_0000_0000_0000) as u64
    } else {
        0u64
    }
}

/// One PCG accumulator step of the 64-bit-seed expansion.
pub open spec fn pcg_advance(s: u64) -> u64 {
    s.wrapping_mul(PCG_MUL).wrapping_add(PCG_INC)
}

/// The 32-bit word that the PCG output function derives from accumulator `s`.
pub open spec fn pcg_output(s: u64) -> u32 {
    rotr32(((((s >> 18u64) ^ s) >> 27u64) & 0xffff_ffff) as u32, (s >> 59u64) as u32)
}

/// The 64-bit integer formed by the first 8 bytes (little-endian) of the
/// byte seed that the PCG expansion derives from `x`: the first two 32-bit
/// PCG words, concatenated little-endian.
pub open spec fn u64_seed_of(x: u64) -> u64 {
    let s1: u64 = pcg_advance(x);
    let s2: u64 = pcg_advance(s1);
    (pcg_output(s1) as u64) | ((pcg_output(s2) as u64) << 32u64)
}

/// Byte `j` (counting from the least significant) of the little-endian
/// encoding of `x`.
pub open spec fn le_byte(x: u64, j: int) -> u8
    recommends
        0 <= j < 8,
{
    ((x >> ((8 * j) as u64)) & 0xff) as u8
}

/// The 64-bit integer read little-endian from the first 8 bytes of `b`.
pub open spec fn le_u64_8(b: Seq<u8>) -> u64
    recommends
        b.len() >= 8,
{
    (b[0] as u64) | ((b[1] as u64) << 8u64) | ((b[2] as u64) << 16u64) | ((b[3] as u64)
        << 24u64) | ((b[4] as u64) << 32u64) | ((b[5] as u64) << 40u64) | ((b[6] as u64)
        << 48u64) | ((b[7] as u64) << 56u64)
}

/// The first `n` bytes of the byte stream of a generator started in `s`: the
/// little-endian encodings of its successive output words, concatenated and
/// truncated to `n` bytes.
pub open spec fn stream_bytes(s: GenState, n: nat) -> Seq<u8> {
    Seq::new(n, |i: int| le_byte(nth_output(s, (i / 8) as nat), i % 8))
}

} // verus!

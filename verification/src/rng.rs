//! The core generator: a fixed 3-word state, a pure step function, the
//! deterministic seeding paths and the stream-partitioning constructor.

use crate::laws::lemma_draw_triple_not_all_zero;
use crate::model::{
    draw_triple, le_byte, le_u64_8, nth_output, nth_state, offset_init, pcg_advance, pcg_output,
    rotl64, rotr32, seeded_state, sm_acc, sm_out, sm_step, step_output, step_state, stream_bytes,
    stream_offset, u64_seed_of, GenState, LOOP_INCREMENT, PCG_INC, PCG_MUL, WARMUP_ROUNDS,
};
use crate::splitmix::SplitMix64;
use vstd::arithmetic::div_mod::{lemma_mod_mod, lemma_small_mod};
use vstd::arithmetic::mul::lemma_mul_upper_bound;
use vstd::prelude::*;

verus! {

/// An instance of the `biski64` pseudo-random number generator.
///
/// A fast, robust, non-cryptographic PRNG with a guaranteed minimum period
/// of 2^64: the `fast_loop` word advances by a fixed odd increment every
/// step and therefore visits all 2^64 values before repeating (see
/// `laws::lemma_fast_loop_full_period`).
#[derive(Debug, Clone, PartialEq, Eq, Structural)]
pub struct Biski64Rng {
    fast_loop: u64,
    mix: u64,
    loop_mix: u64,
}

/// The construction-time failures: both report programmer misuse of the
/// stream partitioning and are the only ways any operation can fail.
#[derive(Debug, Clone, Copy, PartialEq, Eq, Structural)]
pub enum StreamError {
    /// `total_streams` was zero.
    InvalidStreamCount,
    /// `stream_index` was not below `total_streams`.
    InvalidStreamIndex,
}

impl View for Biski64Rng {
    type V = GenState;

    closed spec fn view(&self) -> GenState {
        GenState { fast_loop: self.fast_loop, mix: self.mix, loop_mix: self.loop_mix }
    }
}

/// Left rotation of a 64-bit word by a fixed amount strictly inside the
/// word width.
fn rotate_left_64(x: u64, k: u64) -> (r: u64)
    requires
        0 < k < 64,
    ensures
        r == rotl64(x, k),
{
    (x << k) | (x >> (64 - k))
}

/// Right rotation of a 32-bit word; an amount of zero leaves it unchanged.
fn rotate_right_32(x: u32, k: u32) -> (r: u32)
    requires
        k < 32,
    ensures
        r == rotr32(x, k),
{
    if k == 0 {
        x
    } else {
        (x >> k) | (x << (32 - k))
    }
}

/// The 32-bit word that the PCG output function derives from accumulator
/// `s` during the expansion of a 64-bit seed into a byte seed.
fn pcg_word(s: u64) -> (r: u32)
    ensures
        r == pcg_output(s),
{
    let xorshifted: u32 = ((((s >> 18) ^ s) >> 27) & 0xffff_ffff) as u32;
    let rot_wide: u64 = s >> 59;
    proof {
        assert(s >> 59u64 < 32) by (bit_vector);
    }
    let rot: u32 = rot_wide as u32;
    rotate_right_32(xorshifted, rot)
}

impl Biski64Rng {
    /// Draw the initial triple from the seed expander, rejecting an
    /// all-zero triple (provably never drawn), add `off` to the fast-loop
    /// word, and run the fixed warm-up.
    fn seed_with_offset(seed64: u64, off: u64) -> (r: Self)
        ensures
            r@ == seeded_state(seed64, off),
    {
        let mut seeder = SplitMix64::new(seed64);
        let mut s0: u64 = 0;
        let mut s1: u64 = 0;
        let mut s2: u64 = 0;
        while s0 == 0 && s1 == 0 && s2 == 0
            invariant
                (s0 == 0 && s1 == 0 && s2 == 0) ==> seeder@ == seed64,
                !(s0 == 0 && s1 == 0 && s2 == 0) ==> (s0 == sm_out(seed64, 0) && s1 == sm_out(
                    seed64,
                    1,
                ) && s2 == sm_out(seed64, 2)),
            decreases (if s0 == 0 && s1 == 0 && s2 == 0 {
                1int
            } else {
                0int
            }),
        {
            s0 = seeder.next();
            s1 = seeder.next();
            s2 = seeder.next();
            proof {
                assert(sm_acc(seed64, 1) == sm_step(sm_acc(seed64, 0)));
                assert(sm_acc(seed64, 2) == sm_step(sm_acc(seed64, 1)));
                assert(sm_acc(seed64, 3) == sm_step(sm_acc(seed64, 2)));
                assert(s0 == sm_out(seed64, 0) && s1 == sm_out(seed64, 1) && s2 == sm_out(
                    seed64,
                    2,
                ));
                lemma_draw_triple_not_all_zero(seed64, 0);
            }
        }
        let mut rng = Biski64Rng { fast_loop: s0.wrapping_add(off), mix: s1, loop_mix: s2 };
        proof {
            assert(rng@ == offset_init(draw_triple(seed64, 0), off));
        }
        let ghost start: GenState = rng@;
        let mut i: u64 = 0;
        while i < WARMUP_ROUNDS
            invariant
                i <= WARMUP_ROUNDS,
                rng@ == nth_state(start, i as nat),
            decreases WARMUP_ROUNDS - i,
        {
            rng.next_u64();
            i = i + 1;
            proof {
                assert(nth_state(start, i as nat) == step_state(
                    nth_state(start, (i - 1) as nat),
                ));
            }
        }
        rng
    }

    /// Creates a new generator from a 64-bit seed.
    ///
    /// The seed is first expanded into a byte seed by two PCG steps (only
    /// the first 8 derived bytes are significant), then treated exactly as
    /// `from_seed` treats them: deterministic, so equal seeds give equal
    /// output sequences.
    pub fn seed_from_u64(seed: u64) -> (r: Self)
        ensures
            r@ == seeded_state(u64_seed_of(seed), 0),
    {
        let acc1: u64 = seed.wrapping_mul(PCG_MUL).wrapping_add(PCG_INC);
        let w1: u32 = pcg_word(acc1);
        let acc2: u64 = acc1.wrapping_mul(PCG_MUL).wrapping_add(PCG_INC);
        let w2: u32 = pcg_word(acc2);
        let seed64: u64 = (w1 as u64) | ((w2 as u64) << 32);
        proof {
            assert(acc1 == pcg_advance(seed) && acc2 == pcg_advance(acc1));
        }
        Self::seed_with_offset(seed64, 0)
    }

    /// Creates a new generator from a 32-byte seed.
    ///
    /// The first 8 bytes, read little-endian, seed the expander; the other
    /// 24 bytes are not significant. The initial state is drawn from the
    /// expander (an all-zero draw is rejected) and a 16-step warm-up is
    /// applied.
    pub fn from_seed(seed: [u8; 32]) -> (r: Self)
        ensures
            r@ == seeded_state(le_u64_8(seed@), 0),
    {
        let seed64: u64 = (seed[0] as u64) | ((seed[1] as u64) << 8) | ((seed[2] as u64) << 16) | (
        (seed[3] as u64) << 24) | ((seed[4] as u64) << 32) | ((seed[5] as u64) << 40) | ((
        seed[6] as u64) << 48) | ((seed[7] as u64) << 56);
        Self::seed_with_offset(seed64, 0)
    }

    /// Creates a new generator for a specific stream in a parallel setup.
    ///
    /// The state is drawn from the master seed as in `from_seed`; then the
    /// fast-loop word is offset by
    /// `stream_index * floor((2^64 - 1) / total_streams) * LOOP_INCREMENT`
    /// (modulo 2^64), placing each stream at a distinct, evenly spaced
    /// starting point along the full 2^64 fast-loop cycle.
    pub fn from_seed_for_stream(seed: u64, stream_index: u64, total_streams: u64) -> (r: Self)
        requires
            1 <= total_streams,
            stream_index < total_streams,
        ensures
            r@ == seeded_state(seed, stream_offset(stream_index, total_streams)),
    {
        let off: u64 = if total_streams > 1 {
            let cycles: u128 = 0xffff_ffff_ffff_ffffu128 / (total_streams as u128);
            let p1: u128 = (stream_index as u128).wrapping_mul(cycles);
            let p2: u128 = p1.wrapping_mul(0x9999_9999_9999_9999u128);
            proof {
                let m64: int = 0x1_0000_0000_0000_0000;
                let m128: int = 0x1_0000_0000_0000_0000_0000_0000_0000_0000int;
                lemma_mul_upper_bound(
                    stream_index as int,
                    u64::MAX as int,
                    cycles as int,
                    u64::MAX as int,
                );
                lemma_small_mod((stream_index * cycles) as nat, m128 as nat);
                assert(p1 == stream_index * cycles);
                assert(p2 & 0xffff_ffff_ffff_ffffu128 == p2 % 0x1_0000_0000_0000_0000u128)
                    by (bit_vector);
                assert(m64 * m64 == m128);
                lemma_mod_mod(p1 * 0x9999_9999_9999_9999, m64, m64);
            }
            (p2 & 0xffff_ffff_ffff_ffff) as u64
        } else {
            0u64
        };
        proof {
            assert(off == stream_offset(stream_index, total_streams));
        }
        Self::seed_with_offset(seed, off)
    }

    /// Checked variant of `from_seed_for_stream`: rejects a zero stream
    /// count and an out-of-range stream index with the documented error
    /// kinds instead of treating them as precondition violations.
    pub fn try_from_seed_for_stream(seed: u64, stream_index: u64, total_streams: u64) -> (r: Result<
        Self,
        StreamError,
    >)
        ensures
            total_streams == 0 ==> r == Result::<Self, StreamError>::Err(
                StreamError::InvalidStreamCount,
            ),
            total_streams >= 1 && stream_index >= total_streams ==> r == Result::<
                Self,
                StreamError,
            >::Err(StreamError::InvalidStreamIndex),
            total_streams >= 1 && stream_index < total_streams ==> (r matches Ok(g) && g@
                == seeded_state(seed, stream_offset(stream_index, total_streams))),
    {
        if total_streams == 0 {
            Err(StreamError::InvalidStreamCount)
        } else if stream_index >= total_streams {
            Err(StreamError::InvalidStreamIndex)
        } else {
            Ok(Self::from_seed_for_stream(seed, stream_index, total_streams))
        }
    }

    /// Advance the state by exactly one step and return the output word:
    /// the sum of the two mixing words before the step.
    pub fn next_u64(&mut self) -> (r: u64)
        ensures
            r == step_output(old(self)@),
            final(self)@ == step_state(old(self)@),
    {
        let output: u64 = self.mix.wrapping_add(self.loop_mix);
        let new_fast_loop: u64 = self.fast_loop.wrapping_add(LOOP_INCREMENT);
        let new_mix: u64 = rotate_left_64(self.mix, 16).wrapping_add(
            rotate_left_64(self.loop_mix, 40),
        );
        let new_loop_mix: u64 = self.fast_loop ^ self.mix;
        self.fast_loop = new_fast_loop;
        self.mix = new_mix;
        self.loop_mix = new_loop_mix;
        output
    }

    /// The high 32 bits of the `next_u64` word the same state would
    /// produce; consumes one full step per call.
    pub fn next_u32(&mut self) -> (r: u32)
        ensures
            r == (step_output(old(self)@) >> 32u64) as u32,
            final(self)@ == step_state(old(self)@),
    {
        let w: u64 = self.next_u64();
        proof {
            assert(w >> 32u64 < 0x1_0000_0000) by (bit_vector);
        }
        (w >> 32) as u32
    }

    /// Fill the buffer with the byte stream: little-endian encodings of
    /// successive `next_u64` words, concatenated and truncated to the
    /// buffer's length; one step is consumed per started 8-byte chunk.
    pub fn fill_bytes(&mut self, dest: &mut Vec<u8>)
        ensures
            final(dest)@.len() == old(dest)@.len(),
            final(dest)@ == stream_bytes(old(self)@, old(dest)@.len() as nat),
            final(self)@ == nth_state(old(self)@, ((old(dest)@.len() + 7) / 8) as nat),
    {
        let ghost start: GenState = self@;
        let n: usize = dest.len();
        let full: usize = n - n % 8;
        let mut out: Vec<u8> = Vec::new();
        let mut i: usize = 0;
        while i < full
            invariant
                i % 8 == 0,
                i <= full,
                full <= n,
                full == n - n % 8,
                out@.len() == i,
                out@ == stream_bytes(start, i as nat),
                self@ == nth_state(start, (i / 8) as nat),
            decreases full - i,
        {
            let w: u64 = self.next_u64();
            proof {
                assert(w == nth_output(start, (i / 8) as nat));
            }
            let mut j: usize = 0;
            while j < 8
                invariant
                    j <= 8,
                    i % 8 == 0,
                    i + 8 <= full,
                    w == nth_output(start, (i / 8) as nat),
                    out@.len() == i + j,
                    out@ == stream_bytes(start, (i + j) as nat),
                decreases 8 - j,
            {
                let b: u8 = ((w >> ((8 * j) as u64)) & 0xff) as u8;
                proof {
                    assert(b == le_byte(w, j as int));
                    assert forall|q: int| 0 <= q < i + j + 1 implies stream_bytes(
                        start,
                        (i + j + 1) as nat,
                    )[q] == out@.push(b)[q] by {
                        if q < i + j {
                            assert(stream_bytes(start, (i + j) as nat)[q] == stream_bytes(
                                start,
                                (i + j + 1) as nat,
                            )[q]);
                        } else {
                            assert(q / 8 == i / 8 && q % 8 == j);
                        }
                    }
                    assert(stream_bytes(start, (i + j + 1) as nat) =~= out@.push(b));
                }
                out.push(b);
                j = j + 1;
            }
            i = i + 8;
            proof {
                assert(nth_state(start, (i / 8) as nat) == step_state(
                    nth_state(start, ((i / 8) - 1) as nat),
                ));
            }
        }
        if i < n {
            let w: u64 = self.next_u64();
            proof {
                assert(w == nth_output(start, (i / 8) as nat));
                assert(nth_state(start, (i / 8 + 1) as nat) == step_state(
                    nth_state(start, (i / 8) as nat),
                ));
            }
            while i < n
                invariant
                    full <= i <= n,
                    full == n - n % 8,
                    n - full < 8,
                    w == nth_output(start, (full / 8) as nat),
                    self@ == nth_state(start, (full / 8 + 1) as nat),
                    out@.len() == i,
                    out@ == stream_bytes(start, i as nat),
                decreases n - i,
            {
                let b: u8 = ((w >> ((8 * (i - full)) as u64)) & 0xff) as u8;
                proof {
                    assert(b == le_byte(w, i - full));
                    assert forall|q: int| 0 <= q < i + 1 implies stream_bytes(start, (i + 1) as nat)[q]
                        == out@.push(b)[q] by {
                        if q < i {
                            assert(stream_bytes(start, i as nat)[q] == stream_bytes(
                                start,
                                (i + 1) as nat,
                            )[q]);
                        } else {
                            assert(q / 8 == full / 8 && q % 8 == i - full);
                        }
                    }
                    assert(stream_bytes(start, (i + 1) as nat) =~= out@.push(b));
                }
                out.push(b);
                i = i + 1;
            }
            proof {
                assert(self@ == nth_state(start, ((n + 7) / 8) as nat));
            }
        }
        proof {
            assert(out@ == stream_bytes(start, n as nat));
            assert(self@ == nth_state(start, ((n + 7) / 8) as nat));
        }
        *dest = out;
    }
}

} // verus!

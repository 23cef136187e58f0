//! The global properties of the generator, proved once and for all:
//!
//! - the SplitMix64 mixer maps only the zero accumulator to the zero word,
//!   so no candidate triple drawn during seeding is ever all-zero and the
//!   seeding loop accepts its first draw;
//! - the initial state of every constructed generator, stream offset
//!   included, has at least one non-zero word;
//! - construction is deterministic: equal seeds give generators that agree
//!   on every output word;
//! - the fast-loop word visits 2^64 distinct values before repeating,
//!   because its increment is odd, which bounds the generator's period from
//!   below by 2^64.

use crate::model::{
    draw_triple, is_all_zero, le_u64_8, nth_output, nth_state, offset_init, seeded_state, sm_acc,
    sm_mix, sm_out, sm_step, u64_seed_of, GenState, GOLDEN_GAMMA, LOOP_INCREMENT, SM_MUL_1,
    SM_MUL_2,
};
use vstd::arithmetic::div_mod::{
    lemma_add_mod_noop, lemma_fundamental_div_mod, lemma_mod_multiples_basic,
    lemma_mod_multiples_vanish, lemma_mul_mod_noop_left, lemma_mul_mod_noop_right,
    lemma_small_mod,
};
use vstd::arithmetic::mul::lemma_mul_is_associative;
use vstd::prelude::*;

verus! {

/// The multiplicative inverse of `LOOP_INCREMENT` modulo 2^64. That the
/// product of the two is congruent to 1 is checked inside the period proof;
/// it is what makes the odd increment invertible.
pub const LOOP_INCREMENT_INVERSE: u64 = 0xaaaa_aaaa_aaaa_aaa9;

/// The SplitMix64 output mixer returns zero only for the zero accumulator:
/// the xor-shifts are invertible and the two multipliers are odd, so every
/// stage of the mixer maps exactly one value to zero.
pub proof fn lemma_sm_mix_zero_only_at_zero(z: u64)
    ensures
        sm_mix(z) == 0 ==> z == 0,
{
    let a: u64 = z ^ (z >> 30u64);
    let b: u64 = a.wrapping_mul(SM_MUL_1);
    let c: u64 = b ^ (b >> 27u64);
    let d: u64 = c.wrapping_mul(SM_MUL_2);
    if sm_mix(z) == 0 {
        assert(d ^ (d >> 31u64) == 0);
        assert(d == 0) by (bit_vector)
            requires
                d ^ (d >> 31u64) == 0,
        ;
        assert(d == ((c * SM_MUL_2) % 0x1_0000_0000_0000_0000) as u64);
        assert(c == 0) by (bit_vector)
            requires
                (c * 0x94d0_49bb_1331_11eb) % 0x1_0000_0000_0000_0000 == 0,
        ;
        assert(b == 0) by (bit_vector)
            requires
                b ^ (b >> 27u64) == 0,
        ;
        assert(b == ((a * SM_MUL_1) % 0x1_0000_0000_0000_0000) as u64);
        assert(a == 0) by (bit_vector)
            requires
                (a * 0xbf58_476d_1ce4_e5b9) % 0x1_0000_0000_0000_0000 == 0,
        ;
        assert(z == 0) by (bit_vector)
            requires
                z ^ (z >> 30u64) == 0,
        ;
    }
}

/// No two consecutive SplitMix64 outputs are both zero: both would force
/// the accumulator to be zero twice in a row, yet it advances by a non-zero
/// constant between the two draws.
pub proof fn lemma_consecutive_outputs_not_both_zero(seed: u64, n: nat)
    ensures
        !(sm_out(seed, n) == 0 && sm_out(seed, n + 1) == 0),
{
    let a1: u64 = sm_acc(seed, n + 1);
    let a2: u64 = sm_acc(seed, n + 2);
    assert(a2 == sm_step(a1));
    if sm_out(seed, n) == 0 && sm_out(seed, n + 1) == 0 {
        lemma_sm_mix_zero_only_at_zero(a1);
        lemma_sm_mix_zero_only_at_zero(a2);
        assert(sm_step(0u64) == GOLDEN_GAMMA);
        assert(false);
    }
}

/// No candidate triple drawn during seeding is all-zero: already its first
/// two words cannot both be zero. The seeding loop therefore accepts its
/// first draw, and the all-zero rejection branch is provably never taken.
pub proof fn lemma_draw_triple_not_all_zero(seed: u64, k: nat)
    ensures
        !(draw_triple(seed, k).0 == 0 && draw_triple(seed, k).1 == 0 && draw_triple(seed, k).2
            == 0),
{
    lemma_consecutive_outputs_not_both_zero(seed, 3 * k);
}

/// Non-zero state invariant: the state a generator starts stepping from —
/// the first drawn triple, with any stream offset added to the fast-loop
/// word — never has all three words zero, because its two mixing words are
/// consecutive SplitMix64 outputs.
pub proof fn lemma_initial_state_not_all_zero(seed: u64, off: u64)
    ensures
        !is_all_zero(offset_init(draw_triple(seed, 0), off)),
{
    lemma_consecutive_outputs_not_both_zero(seed, 1);
}

/// Determinism: two generators constructed from the same 64-bit seed by the
/// u64 seeding path agree on every output word, at every position.
pub proof fn lemma_seed_from_u64_deterministic(s: u64, g1: GenState, g2: GenState, n: nat)
    requires
        g1 == seeded_state(u64_seed_of(s), 0),
        g2 == seeded_state(u64_seed_of(s), 0),
    ensures
        nth_output(g1, n) == nth_output(g2, n),
{
}

/// Determinism (byte seed): two generators constructed from the same
/// 32-byte seed agree on every output word, at every position.
pub proof fn lemma_from_seed_deterministic(b: Seq<u8>, g1: GenState, g2: GenState, n: nat)
    requires
        b.len() == 32,
        g1 == seeded_state(le_u64_8(b), 0),
        g2 == seeded_state(le_u64_8(b), 0),
    ensures
        nth_output(g1, n) == nth_output(g2, n),
{
}

/// The fast-loop word after `n` steps is the start value plus `n` times the
/// increment, modulo 2^64.
pub proof fn lemma_fast_loop_formula(s: GenState, n: nat)
    ensures
        nth_state(s, n).fast_loop == ((s.fast_loop + n * LOOP_INCREMENT)
            % 0x1_0000_0000_0000_0000) as u64,
    decreases n,
{
    let m: int = 0x1_0000_0000_0000_0000;
    if n == 0 {
        lemma_small_mod(s.fast_loop as nat, m as nat);
    } else {
        lemma_fast_loop_formula(s, (n - 1) as nat);
        let prev: u64 = nth_state(s, (n - 1) as nat).fast_loop;
        let base: int = s.fast_loop + (n - 1) * LOOP_INCREMENT;
        assert(prev == base % m);
        lemma_small_mod(LOOP_INCREMENT as nat, m as nat);
        lemma_add_mod_noop(base, LOOP_INCREMENT as int, m);
        assert((prev + LOOP_INCREMENT) % m == (base + LOOP_INCREMENT) % m);
        assert(base + LOOP_INCREMENT == s.fast_loop + n * LOOP_INCREMENT) by {
            assert(n * LOOP_INCREMENT == (n - 1) * LOOP_INCREMENT + LOOP_INCREMENT)
                by (nonlinear_arith);
        };
        let stepped: u64 = prev.wrapping_add(LOOP_INCREMENT);
        if prev + LOOP_INCREMENT <= u64::MAX {
            lemma_small_mod((prev + LOOP_INCREMENT) as nat, m as nat);
        } else {
            lemma_mod_multiples_vanish(1int, prev + LOOP_INCREMENT - m, m);
            lemma_small_mod((prev + LOOP_INCREMENT - m) as nat, m as nat);
        }
        assert(stepped == (prev + LOOP_INCREMENT) % m);
        assert(nth_state(s, n).fast_loop == stepped);
    }
}

/// Minimum-period guarantee: within the first 2^64 steps the fast-loop word
/// never revisits a value. The increment is odd, hence invertible modulo
/// 2^64, so equal fast-loop words force equal step counts. The period of
/// the whole generator is therefore at least 2^64.
pub proof fn lemma_fast_loop_full_period(s: GenState, i: nat, j: nat)
    requires
        i < 0x1_0000_0000_0000_0000,
        j < 0x1_0000_0000_0000_0000,
        nth_state(s, i).fast_loop == nth_state(s, j).fast_loop,
    ensures
        i == j,
{
    if i < j {
        lemma_fast_loop_steps_distinct(s, i, j);
    } else if j < i {
        lemma_fast_loop_steps_distinct(s, j, i);
    }
}

/// Helper for the period proof: for step counts `i < j < 2^64` the fast-loop
/// words differ.
proof fn lemma_fast_loop_steps_distinct(s: GenState, i: nat, j: nat)
    requires
        i < j,
        j < 0x1_0000_0000_0000_0000,
    ensures
        nth_state(s, i).fast_loop != nth_state(s, j).fast_loop,
{
    if nth_state(s, i).fast_loop == nth_state(s, j).fast_loop {
        let m: int = 0x1_0000_0000_0000_0000;
        let k: int = LOOP_INCREMENT as int;
        let kinv: int = LOOP_INCREMENT_INVERSE as int;
        let d: int = j - i;
        lemma_fast_loop_formula(s, i);
        lemma_fast_loop_formula(s, j);
        let x: int = s.fast_loop + i * k;
        let y: int = s.fast_loop + j * k;
        assert(x % m == y % m);
        // Equal residues make the difference a multiple of the modulus.
        lemma_fundamental_div_mod(x, m);
        lemma_fundamental_div_mod(y, m);
        let q: int = y / m - x / m;
        assert(y - x == m * q);
        assert(y - x == d * k) by (nonlinear_arith)
            requires
                x == s.fast_loop + i * k,
                y == s.fast_loop + j * k,
                d == j - i,
        ;
        assert((d * k) % m == 0) by {
            assert(d * k == q * m) by (nonlinear_arith)
                requires
                    d * k == y - x,
                    y - x == m * q,
            ;
            lemma_mod_multiples_basic(q, m);
        };
        // Multiply by the inverse of the odd increment to recover d modulo 2^64.
        assert((k * kinv) % m == 1);
        lemma_mul_mod_noop_left(d * k, kinv, m);
        assert(((d * k) % m) * kinv % m == (d * k * kinv) % m);
        lemma_mul_is_associative(d, k, kinv);
        lemma_mul_mod_noop_right(d, k * kinv, m);
        assert((d * ((k * kinv) % m)) % m == (d * (k * kinv)) % m);
        assert(d % m == 0);
        lemma_small_mod(d as nat, m as nat);
        assert(false);
    }
}

} // verus!

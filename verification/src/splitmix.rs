//! The executable seed expander: a complete SplitMix64 generator.
//!
//! It turns an arbitrary 64-bit seed into a sequence of well-mixed 64-bit
//! words and is used only to bootstrap the core generator's state; it is
//! never exposed as the public output stream.

use crate::model::{sm_mix, sm_step, GOLDEN_GAMMA, SM_MUL_1, SM_MUL_2};
use vstd::prelude::*;

verus! {

/// A SplitMix64 generator: one 64-bit accumulator.
pub struct SplitMix64 {
    state: u64,
}

impl View for SplitMix64 {
    type V = u64;

    closed spec fn view(&self) -> u64 {
        self.state
    }
}

impl SplitMix64 {
    /// A fresh expander whose accumulator is the given seed.
    pub fn new(seed: u64) -> (r: Self)
        ensures
            r@ == seed,
    {
        Self { state: seed }
    }

    /// Advance the accumulator by the golden-ratio constant and return the
    /// mixed word: a pure function of the accumulator.
    pub fn next(&mut self) -> (r: u64)
        ensures
            final(self)@ == sm_step(old(self)@),
            r == sm_mix(final(self)@),
    {
        self.state = self.state.wrapping_add(GOLDEN_GAMMA);
        let z0: u64 = self.state;
        let z1: u64 = (z0 ^ (z0 >> 30u64)).wrapping_mul(SM_MUL_1);
        let z2: u64 = (z1 ^ (z1 >> 27u64)).wrapping_mul(SM_MUL_2);
        z2 ^ (z2 >> 31u64)
    }
}

} // verus!

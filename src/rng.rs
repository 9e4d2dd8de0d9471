//! A small linear congruential generator for cosmetic randomness.
use vstd::prelude::*;

verus! {

/// The multiplier of the generator.
pub const MULTIPLIER: u64 = 1103515245;

/// The increment of the generator.
pub const INCREMENT: u64 = 12345;

/// The state that follows `state`, modulo 2^64.
pub open spec fn next_state(state: u64) -> u64 {
    ((state as int * MULTIPLIER as int + INCREMENT as int) % 0x1_0000_0000_0000_0000) as u64
}

/// A pseudo-random number generator: not for anything that needs
/// unpredictability.
pub struct SimpleRng {
    state: u64,
}

impl View for SimpleRng {
    type V = u64;

    closed spec fn view(&self) -> u64 {
        self.state
    }
}

impl SimpleRng {
    /// A generator that starts from `seed`.
    pub fn new(seed: u64) -> (r: Self)
        ensures
            r@ == seed,
    {
        SimpleRng { state: seed }
    }

    /// Advances the generator and returns its new state.
    pub fn next(&mut self) -> (r: u64)
        ensures
            r == next_state(old(self)@),
            final(self)@ == r,
    {
        let m = self.state.wrapping_mul(MULTIPLIER);
        self.state = m.wrapping_add(INCREMENT);
        proof {
            let s = old(self)@ as int;
            assert(m as int == (s * MULTIPLIER as int) % 0x1_0000_0000_0000_0000);
            assert(((s * MULTIPLIER as int) % 0x1_0000_0000_0000_0000 + INCREMENT as int)
                % 0x1_0000_0000_0000_0000 == (s * MULTIPLIER as int + INCREMENT as int)
                % 0x1_0000_0000_0000_0000) by (nonlinear_arith);
        }
        self.state
    }
}

} // verus!

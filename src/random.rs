use vstd::prelude::*;

verus! {

/// Modulus of the mixing function behind [`Random`].
pub const MODULUS: u64 = 2147483648;

/// Multiplier of the mixing function.
pub const MULTIPLIER: u64 = 1103515245;

/// Increment of the mixing function.
pub const INCREMENT: u64 = 12345;

/// The counter that follows `seed`, wrapping to zero after `u64::MAX`.
pub open spec fn next_seed(seed: u64) -> u64 {
    if seed == u64::MAX {
        0
    } else {
        (seed + 1) as u64
    }
}

/// A counter value scrambled by one linear congruential step.
pub open spec fn mix(counter: u64) -> u64 {
    (((counter % MODULUS) as int * MULTIPLIER + INCREMENT) % (MODULUS as int)) as u64
}

/// The boolean drawn from state `seed`: bit 16 of the next counter value,
/// mixed.
pub open spec fn flip(seed: u64) -> bool {
    (mix(next_seed(seed)) / 65536) % 2 == 1
}

/// A seeded, counter-based source of pseudo-random booleans; the same seed
/// always gives the same sequence.
pub struct Random {
    pub seed: u64,
}

impl Random {
    /// Advances the counter and draws one boolean from it.
    pub fn next_bool(&mut self) -> (r: bool)
        ensures
            r == flip(old(self).seed),
            final(self).seed == next_seed(old(self).seed),
    {
        self.seed = if self.seed == u64::MAX {
            0
        } else {
            self.seed + 1
        };
        let c = self.seed % MODULUS;
        assert(c * MULTIPLIER + INCREMENT < 0x1_0000_0000_0000_0000) by (nonlinear_arith)
            requires
                c < MODULUS,
        ;
        let mixed = (c * MULTIPLIER + INCREMENT) % MODULUS;
        (mixed / 65536) % 2 == 1
    }
}

} // verus!

//! A deterministic xorshift-family pseudo-random generator. Every stochastic
//! choice of the simulation draws from one stream of these words.

use vstd::prelude::*;

use crate::cell::CellPosition;
use crate::POND_HEIGHT;
use crate::POND_WIDTH;

verus! {

/// The generator's state: two machine words.
#[derive(Clone, Copy, PartialEq, Eq, Structural, Debug)]
pub struct RandomGenerator {
    pub s0: usize,
    pub s1: usize,
}

/// The mixed word that one step of the generator stores into its second
/// state word.
pub open spec fn spec_mix(s0: usize, s1: usize) -> usize {
    let x = s0 ^ (s0 << 23);
    x ^ s1 ^ (x >> 17) ^ (s1 >> 26)
}

/// The state of the generator after one draw.
pub open spec fn spec_step(g: RandomGenerator) -> RandomGenerator {
    RandomGenerator { s0: g.s1, s1: spec_mix(g.s0, g.s1) }
}

/// The word that one draw returns.
pub open spec fn spec_output(g: RandomGenerator) -> usize {
    spec_mix(g.s0, g.s1).wrapping_add(g.s1)
}

/// The state of the generator after `n` draws.
pub open spec fn spec_step_n(g: RandomGenerator, n: nat) -> RandomGenerator
    decreases n,
{
    if n == 0 {
        g
    } else {
        spec_step(spec_step_n(g, (n - 1) as nat))
    }
}

/// The word that the `n`-th draw (counting from zero) returns.
pub open spec fn spec_output_n(g: RandomGenerator, n: nat) -> usize {
    spec_output(spec_step_n(g, n))
}

/// Drawing in two runs is the same as drawing once for their total.
pub proof fn lemma_step_n_add(g: RandomGenerator, m: nat, n: nat)
    ensures
        spec_step_n(g, m + n) == spec_step_n(spec_step_n(g, m), n),
    decreases n,
{
    if n > 0 {
        lemma_step_n_add(g, m, (n - 1) as nat);
        assert(m + n == (m + (n - 1) as nat) + 1);
    }
}

impl RandomGenerator {
    /// Seeds the generator. Identical seed words give an identical stream.
    pub fn new(fseed: usize, sseed: usize) -> (g: RandomGenerator)
        ensures
            g == (RandomGenerator { s0: fseed, s1: sseed }),
    {
        RandomGenerator { s0: fseed, s1: sseed }
    }

    /// Draws one word: mixes the two state words, shifts them, and returns
    /// the new second word plus the old one, wrapping on overflow.
    pub fn generate_integer(&mut self) -> (r: usize)
        ensures
            *final(self) == spec_step(*old(self)),
            r == spec_output(*old(self)),
    {
        let mut x = self.s0;
        let y = self.s1;
        self.s0 = y;
        x = x ^ (x << 23);
        self.s1 = x ^ y ^ (x >> 17) ^ (y >> 26);
        self.s1.wrapping_add(y)
    }

    /// Draws one word and tests its 0x80 bit.
    pub fn generate_boolean(&mut self) -> (r: bool)
        ensures
            *final(self) == spec_step(*old(self)),
            r == ((spec_output(*old(self)) & 0x80) > 0),
    {
        (self.generate_integer() & 0x80) > 0
    }

    /// Draws one word and folds it into a grid position. Both coordinates
    /// come from the same word, so they are correlated; the formula is kept
    /// as the simulation has always used it.
    pub fn generate_cell_position(&mut self) -> (p: CellPosition)
        ensures
            *final(self) == spec_step(*old(self)),
            p.0 == spec_output(*old(self)) % POND_WIDTH,
            p.1 == ((spec_output(*old(self)) / POND_HEIGHT) >> 1) % POND_HEIGHT,
            p.wf(),
    {
        let n = self.generate_integer();
        let x = n % POND_WIDTH;
        let y = ((n / POND_HEIGHT) >> 1) % POND_HEIGHT;
        CellPosition(x, y)
    }
}

} // verus!

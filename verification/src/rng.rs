//! The randomness source.
//!
//! A small deterministic generator (the splitmix construction on a 64-bit
//! state) threaded explicitly through every recursive step of the engine, so
//! that a whole expansion is a function of the table and one seed.  The
//! non-deterministic entry point of the generator seeds it from process
//! entropy; the seeded entry point makes the run reproducible.

use vstd::prelude::*;

verus! {

/// The state transition: one golden-ratio increment per draw.
pub open spec fn next_state(s: u64) -> u64 {
    vstd::wrapping::u64_specs::wrapping_add(s, 0x9E3779B97F4A7C15)
}

/// The output function over a state.
pub open spec fn mix_output(z: u64) -> u64 {
    let z1 = vstd::wrapping::u64_specs::wrapping_mul(z ^ (z >> 30), 0xBF58476D1CE4E5B9);
    let z2 = vstd::wrapping::u64_specs::wrapping_mul(z1 ^ (z1 >> 27), 0x94D049BB133111EB);
    z2 ^ (z2 >> 31)
}

/// The index drawn from a state for a candidate list of length `n`.
pub open spec fn spec_below(state: u64, n: int) -> int
    recommends
        n > 0,
{
    mix_output(next_state(state)) as int % n
}

/// Deterministic pseudo-random generator: the whole stream is a function of
/// the first state.
pub struct SplitMix {
    pub state: u64,
}

impl SplitMix {
    pub fn from_seed(seed: u64) -> (r: SplitMix)
        ensures
            r.state == seed,
    {
        SplitMix { state: seed }
    }

    /// Advances the state and returns the mixed output.
    pub fn next_u64(&mut self) -> (x: u64)
        ensures
            final(self).state == next_state(old(self).state),
            x == mix_output(final(self).state),
    {
        self.state = self.state.wrapping_add(0x9E3779B97F4A7C15);
        let z = self.state;
        let z1 = (z ^ (z >> 30)).wrapping_mul(0xBF58476D1CE4E5B9);
        let z2 = (z1 ^ (z1 >> 27)).wrapping_mul(0x94D049BB133111EB);
        z2 ^ (z2 >> 31)
    }

    /// Draws an index below `n`.
    pub fn next_below(&mut self, n: usize) -> (i: usize)
        requires
            n > 0,
        ensures
            final(self).state == next_state(old(self).state),
            i as int == spec_below(old(self).state, n as int),
            i < n,
    {
        let x = self.next_u64();
        (x % (n as u64)) as usize
    }
}

/// Relies on rand::random: one draw of process entropy, used to seed the
/// non-deterministic entry point.
#[verifier::external_body]
pub fn entropy_seed() -> u64 {
    rand::random::<u64>()
}

} // verus!

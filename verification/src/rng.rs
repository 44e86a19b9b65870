use vstd::prelude::*;

verus! {

/// Deterministic pseudo-random source, an injected capability of the
/// engine: every draw is a pure function of the seed, so searches that
/// consume randomness can be replayed exactly. The mixing steps follow the
/// splitmix construction; the view is the current 64-bit state.
#[derive(Clone, Copy, Debug)]
pub struct Rng {
    state: u64,
}

/// The state after one draw: the golden-ratio increment of the splitmix
/// construction.
pub open spec fn spec_advance(s: u64) -> u64 {
    s.wrapping_add(0x9E3779B97F4A7C15)
}

/// The output finalizer of the splitmix construction on an advanced state.
pub open spec fn spec_mix(z0: u64) -> u64 {
    let z1 = (z0 ^ (z0 >> 30)).wrapping_mul(0xBF58476D1CE4E5B9);
    let z2 = (z1 ^ (z1 >> 27)).wrapping_mul(0x94D049BB133111EB);
    z2 ^ (z2 >> 31)
}

/// The value the next draw yields from state `s`.
pub open spec fn spec_draw(s: u64) -> u64 {
    spec_mix(spec_advance(s))
}

impl View for Rng {
    type V = u64;

    closed spec fn view(&self) -> u64 {
        self.state
    }
}

impl Rng {
    /// A source that will replay the same draws for the same seed.
    pub fn new(seed: u64) -> (r: Rng)
        ensures
            r@ == seed,
    {
        Rng { state: seed }
    }

    /// The next raw 64-bit draw: advances the state and mixes it.
    pub fn next_u64(&mut self) -> (r: u64)
        ensures
            final(self)@ == spec_advance(old(self)@),
            r == spec_draw(old(self)@),
    {
        self.state = self.state.wrapping_add(0x9E3779B97F4A7C15);
        let mut z: u64 = self.state;
        z = (z ^ (z >> 30)).wrapping_mul(0xBF58476D1CE4E5B9);
        z = (z ^ (z >> 27)).wrapping_mul(0x94D049BB133111EB);
        z ^ (z >> 31)
    }

    /// A draw uniform over `0..n`: the next raw draw reduced modulo `n`.
    pub fn next_below(&mut self, n: u32) -> (r: u32)
        requires
            n >= 1,
        ensures
            r < n,
            final(self)@ == spec_advance(old(self)@),
            r as u64 == spec_draw(old(self)@) % (n as u64),
    {
        let draw = self.next_u64();
        (draw % (n as u64)) as u32
    }
}

} // verus!

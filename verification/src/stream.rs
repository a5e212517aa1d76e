use vstd::prelude::*;

verus! {

/// State the stream falls back to when seeded with zero, where the shift
/// register would otherwise stay stuck at zero forever.
pub const ZERO_SEED_STATE: u64 = 0x9E37_79B9_7F4A_7C15;

/// One step of the 64-bit xorshift register: the whole generator is this
/// permutation of the nonzero states, iterated.
pub open spec fn next_state(s: u64) -> u64 {
    let a = s ^ (s << 13);
    let b = a ^ (a >> 7);
    b ^ (b << 17)
}

/// The state a fresh stream starts from for a given seed.
pub open spec fn init_state(seed: u64) -> u64 {
    if seed == 0 { ZERO_SEED_STATE } else { seed }
}

/// The register after `n` steps from `s`.
pub open spec fn state_after(s: u64, n: nat) -> u64
    decreases n,
{
    if n == 0 { s } else { next_state(state_after(s, (n - 1) as nat)) }
}

/// Stepping `a` times and then `b` more is stepping `a + b` times.
pub proof fn lemma_state_compose(s: u64, a: nat, b: nat)
    ensures
        state_after(state_after(s, a), b) == state_after(s, a + b),
    decreases b,
{
    if b > 0 {
        lemma_state_compose(s, a, (b - 1) as nat);
    }
}

/// The 128-bit word a draw is cut from: the next two register states glued
/// together, high half first.
pub open spec fn wide_output(s: u64) -> u128 {
    ((next_state(s) as int) * 0x1_0000_0000_0000_0000 + (state_after(s, 2) as int)) as u128
}

/// What a draw below `bound` returns when the register holds `s`.
pub open spec fn spec_draw(s: u64, bound: u128) -> u128 {
    wide_output(s) % bound
}

/// A seedable pseudorandom stream for the per-frame Bernoulli tests: a
/// Marsaglia xorshift register read 128 bits at a time. Every draw is an
/// exact function of the seed, so a frame sampled twice from one seed is the
/// same frame.
#[derive(Clone, Copy, PartialEq, Eq, Structural, Debug)]
pub struct DrawStream {
    pub state: u64,
}

impl DrawStream {
    /// A fresh stream for the given seed.
    pub fn seeded(seed: u64) -> (s: DrawStream)
        ensures
            s.state == init_state(seed),
    {
        if seed == 0 {
            DrawStream { state: ZERO_SEED_STATE }
        } else {
            DrawStream { state: seed }
        }
    }

    /// Advances the register one step and returns its new value.
    fn tick(&mut self) -> (out: u64)
        ensures
            final(self).state == next_state(old(self).state),
            out == next_state(old(self).state),
    {
        let s0 = self.state;
        let a = s0 ^ (s0 << 13u64);
        let b = a ^ (a >> 7u64);
        let c = b ^ (b << 17u64);
        self.state = c;
        c
    }

    /// Draws a value in `[0, bound)`, consuming two register steps.
    pub fn draw_below(&mut self, bound: u128) -> (r: u128)
        requires
            bound > 0,
        ensures
            r == spec_draw(old(self).state, bound),
            r < bound,
            final(self).state == state_after(old(self).state, 2),
    {
        let s0 = self.state;
        let hi = self.tick();
        let lo = self.tick();
        proof {
            assert(state_after(s0, 2) == next_state(state_after(s0, 1)));
            assert(state_after(s0, 1) == next_state(state_after(s0, 0)));
        }
        let wide: u128 = (hi as u128) * 0x1_0000_0000_0000_0000u128 + (lo as u128);
        wide % bound
    }
}

} // verus!

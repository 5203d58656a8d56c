//! The linear congruential generator that places nuggets.
use vstd::prelude::*;

verus! {

/// Multiplier of the linear congruential recurrence.
pub const MULTIPLIER: u32 = 1664525;

/// Increment of the linear congruential recurrence.
pub const INCREMENT: u32 = 1013904223;

/// The state that follows `state`: `state * MULTIPLIER + INCREMENT` modulo 2^32.
pub open spec fn lcg_step(state: u32) -> u32 {
    ((state * MULTIPLIER + INCREMENT) % 0x1_0000_0000) as u32
}

/// The low eight bits of a state: the byte that the generator hands out.
pub open spec fn low_byte(state: u32) -> u8 {
    (state % 256) as u8
}

/// A byte folded into the inclusive range `[min, max]` by remainder. Where the
/// size of the range does not divide 256, the low values of the range come up
/// slightly more often than the high ones.
pub open spec fn fold_into(byte: u8, min: u8, max: u8) -> u8 {
    (min + byte as int % (max - min + 1)) as u8
}

/// The state of a generator seeded with `seed` after `n` draws.
pub open spec fn state_after(seed: u32, n: nat) -> u32
    decreases n,
{
    if n == 0 {
        seed
    } else {
        lcg_step(state_after(seed, (n - 1) as nat))
    }
}

/// The byte handed out by draw number `n`, counted from 0, of a generator seeded
/// with `seed`.
pub open spec fn nth_byte(seed: u32, n: nat) -> u8 {
    low_byte(state_after(seed, n + 1))
}

/// A linear congruential generator over a 32-bit state.
pub struct LcgRng {
    state: u32,
}

impl View for LcgRng {
    type V = u32;

    closed spec fn view(&self) -> u32 {
        self.state
    }
}

impl LcgRng {
    /// A generator whose state is `seed`.
    pub fn new(seed: u32) -> (r: LcgRng)
        ensures
            r@ == seed,
    {
        LcgRng { state: seed }
    }

    /// Advances the state by one step of the recurrence and returns its low byte.
    pub fn next(&mut self) -> (r: u8)
        ensures
            final(self)@ == lcg_step(old(self)@),
            r == low_byte(final(self)@),
    {
        let product: u32 = self.state.wrapping_mul(MULTIPLIER);
        let state: u32 = product.wrapping_add(INCREMENT);
        assert(state == lcg_step(self.state)) by {
            let p: int = self.state * MULTIPLIER;
            assert(product == p % 0x1_0000_0000);
            assert((p % 0x1_0000_0000 + INCREMENT) % 0x1_0000_0000 == (p + INCREMENT) % 0x1_0000_0000);
        }
        self.state = state;
        let byte: u8 = (state & 0xff) as u8;
        assert(state & 0xff == state % 256) by (bit_vector);
        byte
    }

    /// Draws one byte and folds it into the inclusive range `[min, max]`.
    pub fn next_in_range(&mut self, min: u8, max: u8) -> (r: u8)
        requires
            min <= max,
        ensures
            final(self)@ == lcg_step(old(self)@),
            r == fold_into(low_byte(final(self)@), min, max),
            min <= r <= max,
    {
        let byte: u16 = self.next() as u16;
        let span: u16 = (max - min) as u16 + 1;
        let r: u16 = min as u16 + byte % span;
        r as u8
    }
}

/// A folded byte lies in the range it was folded into, and is the range's
/// minimum plus the byte's remainder by the size `span` of the range.
pub proof fn lemma_fold_into_stays_in_range(byte: u8, min: u8, max: u8, span: int)
    requires
        min <= max,
        span == max - min + 1,
    ensures
        min <= fold_into(byte, min, max) <= max,
        fold_into(byte, min, max) == min + byte as int % span,
{
}

/// What a generator hands out is a function of its seed and of the number of
/// draws made so far: after `n` draws its state is `state_after(seed, n)`, and
/// the next draw returns `nth_byte(seed, n)` and leaves `state_after(seed, n + 1)`.
pub proof fn lemma_stream_is_function_of_seed(seed: u32, n: nat)
    ensures
        lcg_step(state_after(seed, n)) == state_after(seed, n + 1),
        low_byte(lcg_step(state_after(seed, n))) == nth_byte(seed, n),
{
}

} // verus!

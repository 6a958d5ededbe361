//! A tiny deterministic random source.

use vstd::prelude::*;
use std::time::Duration;
use crate::time::nanos_of;

verus! {

/// A source of pseudo-random numbers.
///
/// The engine depends on this trait rather than on a concrete generator, which
/// is what lets a test pin the exact piece sequence.
pub trait Rng: Sized {
    /// The value the next call of [`Rng::next_u64`] returns.
    spec fn upcoming_value(&self) -> u64;

    /// The generator after one call of [`Rng::next_u64`].
    spec fn advanced(&self) -> Self;

    /// Returns the next 64-bit value.
    fn next_u64(&mut self) -> (v: u64)
        ensures
            v == old(self).upcoming_value(),
            *final(self) == old(self).advanced(),
    ;

    /// Returns a value in `0..bound`.
    fn next_below(&mut self, bound: usize) -> (v: usize)
        requires
            bound > 0,
        ensures
            v == old(self).upcoming_value() % (bound as u64),
            v < bound,
            *final(self) == old(self).advanced(),
    {
        let raw = self.next_u64();
        (raw % (bound as u64)) as usize
    }
}

/// The seed used in place of zero, at which xorshift would be stuck forever.
pub const ZERO_SEED_REPLACEMENT: u64 = 0x2545_F491_4F6C_DD1Du64;

/// The multiplier that scrambles the output of xorshift64*.
pub const OUTPUT_MULTIPLIER: u64 = 0x2545_F491_4F6C_DD1Du64;

/// The seed used when the system clock cannot be read.
pub const CLOCK_FALLBACK_SEED: u64 = 0x9E37_79B9_7F4A_7C15u64;

/// One xorshift step on the 64-bit state.
pub open spec fn xorshift_step(x: u64) -> u64 {
    let a = x ^ (x << 13u64);
    let b = a ^ (a >> 7u64);
    b ^ (b << 17u64)
}

/// A xorshift64\* generator.
///
/// Not cryptographic and not meant to be: it is small, has no dependencies and
/// produces a well-distributed piece sequence.
#[derive(Debug, Clone, PartialEq, Eq)]
pub struct XorShift64 {
    state: u64,
}

impl XorShift64 {
    /// The internal state.
    pub closed spec fn seed_state(self) -> u64 {
        self.state
    }

    /// The generator a given seed creates.
    pub closed spec fn new_spec(seed: u64) -> XorShift64 {
        XorShift64 { state: if seed == 0 { ZERO_SEED_REPLACEMENT } else { seed } }
    }

    /// A generator is its state: a seed gives the state it names, or the
    /// replacement for zero, and two generators in one state are the same.
    pub proof fn lemma_state_is_everything(self, other: XorShift64, seed: u64)
        ensures
            XorShift64::new_spec(seed).seed_state() == (if seed == 0 { ZERO_SEED_REPLACEMENT } else { seed }),
            self.seed_state() == other.seed_state() ==> self == other,
    {
    }

    /// Each draw steps the state once with xorshift and returns the new state
    /// times the output multiplier.
    pub proof fn lemma_draw_steps_the_state(self)
        ensures
            self.upcoming_value() == xorshift_step(self.seed_state()).wrapping_mul(OUTPUT_MULTIPLIER),
            self.advanced().seed_state() == xorshift_step(self.seed_state()),
    {
    }

    /// Creates a generator from `seed`.
    ///
    /// A zero seed is replaced, because xorshift is stuck at zero forever.
    pub fn new(seed: u64) -> (g: XorShift64)
        ensures
            g == XorShift64::new_spec(seed),
            g.seed_state() == (if seed == 0 { ZERO_SEED_REPLACEMENT } else { seed }),
    {
        XorShift64 { state: if seed == 0 { ZERO_SEED_REPLACEMENT } else { seed } }
    }

    /// Creates a generator seeded from the system clock.
    ///
    /// The seed is made by [`seed_from_epoch`] from the time since the Unix
    /// epoch, as the clock reads it.
    pub fn from_clock() -> (g: XorShift64)
        ensures
            g.seed_state() != 0,
            exists|since: Option<Duration>| g == #[trigger] XorShift64::new_spec(epoch_seed(since)),
    {
        let since = crate::game::clock::since_epoch(crate::game::clock::system_now());
        let seed = seed_from_epoch(since);
        XorShift64::new(seed)
    }
}

/// The seed a reading of the clock gives: the nanoseconds since the Unix epoch
/// cut to their low 64 bits, or a fixed seed when the clock reads before the
/// epoch.
pub open spec fn epoch_seed(since: Option<Duration>) -> u64 {
    match since {
        Some(d) => (nanos_of(d) % 0x1_0000_0000_0000_0000) as u64,
        None => CLOCK_FALLBACK_SEED,
    }
}

/// The seed for a clock reading `since` the Unix epoch, if it came after it.
pub fn seed_from_epoch(since: Option<Duration>) -> (s: u64)
    ensures
        s == epoch_seed(since),
{
    match since {
        Some(d) => {
            let n = crate::time::duration_nanos(d);
            let low: u128 = n % 0x1_0000_0000_0000_0000u128;
            low as u64
        },
        None => CLOCK_FALLBACK_SEED,
    }
}

impl Rng for XorShift64 {
    closed spec fn upcoming_value(&self) -> u64 {
        xorshift_step(self.seed_state()).wrapping_mul(OUTPUT_MULTIPLIER)
    }

    closed spec fn advanced(&self) -> XorShift64 {
        XorShift64 { state: xorshift_step(self.seed_state()) }
    }

    fn next_u64(&mut self) -> (v: u64) {
        let mut x = self.state;
        x = x ^ (x << 13u64);
        x = x ^ (x >> 7u64);
        x = x ^ (x << 17u64);
        self.state = x;
        x.wrapping_mul(OUTPUT_MULTIPLIER)
    }
}

/// Zero is a fixed point of the xorshift step, which is why a zero seed must be
/// replaced.
pub proof fn lemma_zero_is_stuck()
    ensures
        xorshift_step(0) == 0,
{
    assert(xorshift_step(0) == 0) by (bit_vector);
}

/// A state other than zero never steps to zero, so a generator seeded with
/// anything but zero, or with zero replaced, never gets stuck.
pub proof fn lemma_nonzero_stays_nonzero(x: u64)
    requires
        x != 0,
    ensures
        xorshift_step(x) != 0,
{
    let a = x ^ (x << 13u64);
    let b = a ^ (a >> 7u64);
    assert(a != 0) by (bit_vector)
        requires
            x != 0,
            a == x ^ (x << 13u64),
    ;
    assert(b != 0) by (bit_vector)
        requires
            a != 0,
            b == a ^ (a >> 7u64),
    ;
    assert(b ^ (b << 17u64) != 0) by (bit_vector)
        requires
            b != 0,
    ;
}

} // verus!

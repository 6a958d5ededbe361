//! How fast pieces fall.

use vstd::prelude::*;
use std::time::Duration;
use crate::time::{duration_from_nanos, duration_nanos, nanos_of, MAX_NANOS};

verus! {

/// Maps a level to the delay between automatic downward steps.
///
/// Speed is what turns a solved puzzle into a game, so the curve is a trait: a
/// gentler ramp or a brutal one is a new type, not a patched constant.
pub trait GravityCurve {
    /// The delay at `level`, in nanoseconds.
    spec fn interval_nanos(&self, level: u32) -> int;

    /// The delay between gravity steps at `level`.
    fn interval(&self, level: u32) -> (d: Duration)
        ensures
            nanos_of(d) == self.interval_nanos(level),
    ;
}

/// `step * level`, or the longest duration when that would exceed it.
pub open spec fn saturating_scaled(step: int, level: int) -> int {
    if step * level > MAX_NANOS {
        MAX_NANOS as int
    } else {
        step * level
    }
}

/// The classic curve: the starting delay shortened by one step per level, never
/// below the floor. When the steps outgrow the starting delay, the floor holds.
pub open spec fn classic_interval(start: int, step: int, floor: int, level: int) -> int {
    let scaled = saturating_scaled(step, level);
    let base = if start >= scaled { start - scaled } else { floor };
    if base >= floor {
        base
    } else {
        floor
    }
}

/// A curve that shortens the interval on every level and then plateaus.
///
/// The floor matters: without it the interval reaches zero and the game stops
/// being playable rather than merely hard.
#[derive(Debug, Clone, Copy)]
pub struct ClassicGravity {
    start: u128,
    step: u128,
    floor: u128,
}

impl ClassicGravity {
    /// The starting delay, in nanoseconds.
    pub closed spec fn start_nanos(self) -> int {
        self.start as int
    }

    /// The per-level decrement, in nanoseconds.
    pub closed spec fn step_nanos(self) -> int {
        self.step as int
    }

    /// The shortest delay, in nanoseconds.
    pub closed spec fn floor_nanos(self) -> int {
        self.floor as int
    }

    #[verifier::type_invariant]
    spec fn representable(self) -> bool {
        self.start <= MAX_NANOS && self.step <= MAX_NANOS && self.floor <= MAX_NANOS
    }

    /// Creates a curve from its starting delay, per-level decrement and floor.
    pub fn new(start: Duration, step: Duration, floor: Duration) -> (g: ClassicGravity)
        ensures
            g.start_nanos() == nanos_of(start),
            g.step_nanos() == nanos_of(step),
            g.floor_nanos() == nanos_of(floor),
    {
        ClassicGravity {
            start: duration_nanos(start),
            step: duration_nanos(step),
            floor: duration_nanos(floor),
        }
    }
}

impl Default for ClassicGravity {
    fn default() -> (g: ClassicGravity)
        ensures
            g.start_nanos() == 800_000_000,
            g.step_nanos() == 60_000_000,
            g.floor_nanos() == 60_000_000,
    {
        ClassicGravity { start: 800_000_000, step: 60_000_000, floor: 60_000_000 }
    }
}

impl GravityCurve for ClassicGravity {
    closed spec fn interval_nanos(&self, level: u32) -> int {
        classic_interval(self.start as int, self.step as int, self.floor as int, level as int)
    }

    fn interval(&self, level: u32) -> (d: Duration) {
        proof {
            use_type_invariant(self);
            let s = self.step as int;
            assert(s * (level as int) <= MAX_NANOS * 4294967295) by (nonlinear_arith)
                requires
                    0 <= s <= MAX_NANOS,
                    0 <= level <= 4294967295,
            ;
        }
        let product: u128 = self.step * (level as u128);
        let scaled: u128 = if product > MAX_NANOS { MAX_NANOS } else { product };
        let base: u128 = if self.start >= scaled { self.start - scaled } else { self.floor };
        let nanos: u128 = if base >= self.floor { base } else { self.floor };
        duration_from_nanos(nanos)
    }
}

impl ClassicGravity {
    /// The delay at `level` in terms of the curve's parameters.
    pub proof fn lemma_interval(self, level: u32)
        ensures
            self.interval_nanos(level) == classic_interval(
                self.start_nanos(),
                self.step_nanos(),
                self.floor_nanos(),
                level as int,
            ),
    {
    }

    /// Every level falls at least as fast as the one before, never faster than
    /// the floor allows.
    pub proof fn lemma_never_slower(self, low: u32, high: u32)
        requires
            low <= high,
        ensures
            self.interval_nanos(high) <= self.interval_nanos(low),
            self.interval_nanos(high) >= self.floor_nanos(),
    {
        let s = self.step as int;
        assert(s * low <= s * high) by (nonlinear_arith)
            requires
                s >= 0,
                low <= high,
        ;
        assert(s * low >= 0) by (nonlinear_arith)
            requires
                s >= 0,
                low >= 0,
        ;
    }
}

} // verus!

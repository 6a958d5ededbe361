//! How clearing rows advances the level.

use vstd::prelude::*;

verus! {

/// Maps total rows cleared to a level.
///
/// Progression and speed are separate concerns: this decides *when* the game
/// gets harder, [`crate::rules::gravity::GravityCurve`] decides *how much*.
pub trait LevelCurve {
    /// The level reached after clearing `lines` rows in total.
    spec fn level_of(&self, lines: u32) -> u32;

    /// The level reached after clearing `lines` rows in total.
    fn level_for(&self, lines: u32) -> (level: u32)
        ensures
            level == self.level_of(lines),
    ;
}

/// Advances one level for every fixed number of rows cleared, up to a cap.
#[derive(Debug, Clone, Copy)]
pub struct LinesPerLevel {
    per_level: u32,
    cap: u32,
}

impl LinesPerLevel {
    /// Rows per level.
    pub closed spec fn rows_per_level(self) -> u32 {
        self.per_level
    }

    /// The highest level.
    pub closed spec fn top_level(self) -> u32 {
        self.cap
    }

    #[verifier::type_invariant]
    spec fn positive_step(self) -> bool {
        self.per_level > 0
    }

    /// Creates a curve advancing every `per_level` rows, stopping at `cap`.
    pub fn new(per_level: u32, cap: u32) -> (c: LinesPerLevel)
        requires
            per_level > 0,
        ensures
            c.rows_per_level() == per_level,
            c.rows_per_level() > 0,
            c.top_level() == cap,
    {
        LinesPerLevel { per_level, cap }
    }
}

impl Default for LinesPerLevel {
    fn default() -> (c: LinesPerLevel)
        ensures
            c.rows_per_level() == 10,
            c.top_level() == 29,
    {
        LinesPerLevel::new(10, 29)
    }
}

impl LevelCurve for LinesPerLevel {
    open spec fn level_of(&self, lines: u32) -> u32 {
        if lines / self.rows_per_level() <= self.top_level() {
            (lines / self.rows_per_level()) as u32
        } else {
            self.top_level()
        }
    }

    fn level_for(&self, lines: u32) -> (level: u32) {
        proof {
            use_type_invariant(self);
        }
        let level = lines / self.per_level;
        if level <= self.cap {
            level
        } else {
            self.cap
        }
    }
}

impl LinesPerLevel {
    /// The level never drops as more rows are cleared, never exceeds the cap,
    /// and a fresh game starts at level zero.
    pub proof fn lemma_level_monotone(self, fewer: u32, more: u32)
        requires
            self.rows_per_level() > 0,
            fewer <= more,
        ensures
            self.level_of(fewer) <= self.level_of(more),
            self.level_of(more) <= self.top_level(),
            self.level_of(0) == 0,
    {
        let p = self.per_level as int;
        let f = fewer as int;
        let m = more as int;
        assert(f / p <= m / p) by (nonlinear_arith)
            requires
                0 <= f <= m,
                p > 0,
        ;
        assert(0int / p == 0) by (nonlinear_arith)
            requires
                p > 0,
        ;
    }
}

} // verus!

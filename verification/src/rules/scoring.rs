//! How a clear turns into points.

use vstd::prelude::*;

verus! {

/// The number of rows removed by a single lock, named as players name them.
#[derive(Debug, Clone, Copy, PartialEq, Eq, PartialOrd, Ord, Structural)]
pub enum LineClear {
    /// One row.
    Single,
    /// Two rows at once.
    Double,
    /// Three rows at once.
    Triple,
    /// Four rows at once, only possible with the line piece.
    Tetris,
}

impl LineClear {
    /// The named clear for a row count, if there is one.
    pub open spec fn of_rows(rows: int) -> Option<LineClear> {
        if rows == 1 {
            Some(LineClear::Single)
        } else if rows == 2 {
            Some(LineClear::Double)
        } else if rows == 3 {
            Some(LineClear::Triple)
        } else if rows == 4 {
            Some(LineClear::Tetris)
        } else {
            None
        }
    }

    /// How many rows this clear removed.
    pub open spec fn row_count(self) -> int {
        match self {
            LineClear::Single => 1,
            LineClear::Double => 2,
            LineClear::Triple => 3,
            LineClear::Tetris => 4,
        }
    }

    /// Interprets a row count, returning [`None`] when nothing was cleared.
    pub fn from_rows(rows: usize) -> (c: Option<LineClear>)
        ensures
            c == LineClear::of_rows(rows as int),
    {
        match rows {
            1 => Some(LineClear::Single),
            2 => Some(LineClear::Double),
            3 => Some(LineClear::Triple),
            4 => Some(LineClear::Tetris),
            _ => None,
        }
    }

    /// How many rows this clear removed.
    pub fn rows(self) -> (n: u32)
        ensures
            n == self.row_count(),
    {
        match self {
            LineClear::Single => 1,
            LineClear::Double => 2,
            LineClear::Triple => 3,
            LineClear::Tetris => 4,
        }
    }
}

/// Turns events into points.
///
/// Scoring is the rule players argue about most, so it lives behind a trait: a
/// different rule set is a new implementor, not an edit to the engine. Each
/// implementor says what a clear and each kind of drop pays.
pub trait ScoringRule {
    /// Points for `clear` at `level`.
    spec fn line_score(&self, clear: LineClear, level: u32) -> int;

    /// Points for holding the piece down over `cells` rows.
    spec fn soft_drop_score(&self, cells: u32) -> int;

    /// Points for slamming a piece down `cells` rows.
    spec fn hard_drop_score(&self, cells: u32) -> int;

    /// Points awarded for `clear` at `level`.
    fn line_points(&self, clear: LineClear, level: u32) -> (p: u32)
        requires
            self.line_score(clear, level) <= u32::MAX,
        ensures
            p == self.line_score(clear, level),
    ;

    /// Points awarded for holding the piece down over `cells` rows.
    fn soft_drop_points(&self, cells: u32) -> (p: u32)
        requires
            0 <= self.soft_drop_score(cells) <= u32::MAX,
        ensures
            p == self.soft_drop_score(cells),
    ;

    /// Points awarded for slamming a piece down `cells` rows.
    fn hard_drop_points(&self, cells: u32) -> (p: u32)
        requires
            0 <= self.hard_drop_score(cells) <= u32::MAX,
        ensures
            p == self.hard_drop_score(cells),
    ;
}

/// The base value of a clear at level zero.
pub open spec fn base_points(clear: LineClear) -> int {
    match clear {
        LineClear::Single => 100,
        LineClear::Double => 300,
        LineClear::Triple => 500,
        LineClear::Tetris => 800,
    }
}

/// The standard guideline scoring table.
///
/// Rewards are super-linear in rows cleared, a Tetris being worth twice four
/// singles, and scale with the level: a clear pays its base value times one
/// more than the level.
#[derive(Debug, Clone, Copy, Default)]
pub struct GuidelineScoring;

impl ScoringRule for GuidelineScoring {
    open spec fn line_score(&self, clear: LineClear, level: u32) -> int {
        base_points(clear) * (level + 1)
    }

    /// One point per row.
    open spec fn soft_drop_score(&self, cells: u32) -> int {
        cells as int
    }

    /// Two points per row.
    open spec fn hard_drop_score(&self, cells: u32) -> int {
        2 * cells
    }

    fn soft_drop_points(&self, cells: u32) -> (p: u32) {
        cells
    }

    fn hard_drop_points(&self, cells: u32) -> (p: u32) {
        cells * 2
    }

    fn line_points(&self, clear: LineClear, level: u32) -> (p: u32) {
        let base: u32 = match clear {
            LineClear::Single => 100,
            LineClear::Double => 300,
            LineClear::Triple => 500,
            LineClear::Tetris => 800,
        };
        assert(base * (level + 1) <= u32::MAX);
        assert(level + 1 <= u32::MAX) by (nonlinear_arith)
            requires
                base * (level + 1) <= u32::MAX,
                base >= 100,
        ;
        base * (level + 1)
    }
}

/// Clearing more rows at once always pays strictly more, at any level; and a
/// Tetris pays more than four singles.
pub proof fn lemma_bigger_clears_pay_more(level: u32)
    ensures
        GuidelineScoring.line_score(LineClear::Single, level) < GuidelineScoring.line_score(
            LineClear::Double,
            level,
        ),
        GuidelineScoring.line_score(LineClear::Double, level) < GuidelineScoring.line_score(
            LineClear::Triple,
            level,
        ),
        GuidelineScoring.line_score(LineClear::Triple, level) < GuidelineScoring.line_score(
            LineClear::Tetris,
            level,
        ),
        GuidelineScoring.line_score(LineClear::Tetris, level) > 4 * GuidelineScoring.line_score(
            LineClear::Single,
            level,
        ),
{
    assert(100 * (level + 1) < 300 * (level + 1)) by (nonlinear_arith);
    assert(300 * (level + 1) < 500 * (level + 1)) by (nonlinear_arith);
    assert(500 * (level + 1) < 800 * (level + 1)) by (nonlinear_arith);
    assert(800 * (level + 1) > 4 * (100 * (level + 1))) by (nonlinear_arith);
}

/// The same clear pays more at a higher level.
pub proof fn lemma_higher_levels_pay_more(clear: LineClear, low: u32, high: u32)
    requires
        low < high,
    ensures
        GuidelineScoring.line_score(clear, low) < GuidelineScoring.line_score(clear, high),
{
    let b = base_points(clear);
    assert(b * (low + 1) < b * (high + 1)) by (nonlinear_arith)
        requires
            b >= 100,
            low < high,
    ;
}

} // verus!

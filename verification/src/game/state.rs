//! The observable condition of a game in progress.

use vstd::prelude::*;

verus! {

/// What the game is currently doing.
#[derive(Debug, Clone, Copy, PartialEq, Eq, Default, Structural)]
pub enum Phase {
    /// Pieces are falling and input is accepted.
    #[default]
    Playing,
    /// Play is suspended; gravity is frozen.
    Paused,
    /// A piece could not spawn; only restart and quit remain.
    Over,
}

impl Phase {
    /// The phase after toggling pause.
    pub open spec fn spec_toggled(self) -> Phase {
        match self {
            Phase::Playing => Phase::Paused,
            Phase::Paused => Phase::Playing,
            Phase::Over => Phase::Over,
        }
    }

    /// Whether gravity should advance in this phase.
    pub fn is_running(self) -> (b: bool)
        ensures
            b == (self is Playing),
    {
        match self {
            Phase::Playing => true,
            _ => false,
        }
    }

    /// Whether the game has finished.
    pub fn is_over(self) -> (b: bool)
        ensures
            b == (self is Over),
    {
        match self {
            Phase::Over => true,
            _ => false,
        }
    }

    /// Toggles between playing and paused, leaving a finished game finished.
    pub fn toggled_pause(self) -> (p: Phase)
        ensures
            p == self.spec_toggled(),
    {
        match self {
            Phase::Playing => Phase::Paused,
            Phase::Paused => Phase::Playing,
            Phase::Over => Phase::Over,
        }
    }
}

/// Pausing and unpausing returns to play, and a finished game stays finished.
pub proof fn lemma_pause_round_trip(p: Phase)
    ensures
        p != Phase::Over ==> p.spec_toggled().spec_toggled() == p,
        Phase::Over.spec_toggled() == Phase::Over,
{
}

/// `a + b`, or the largest `u32` when that would exceed it.
pub open spec fn saturating_u32(a: int, b: int) -> u32 {
    if a + b > u32::MAX {
        u32::MAX
    } else {
        (a + b) as u32
    }
}

/// Running totals shown to the player.
#[derive(Debug, Clone, Copy, PartialEq, Eq, Default, Structural)]
pub struct Stats {
    /// Points earned so far.
    pub score: u32,
    /// Rows cleared so far.
    pub lines: u32,
    /// The current level.
    pub level: u32,
    /// How many pieces have locked.
    pub pieces: u32,
}

impl Stats {
    /// Every total at zero.
    pub open spec fn zero() -> Stats {
        Stats { score: 0, lines: 0, level: 0, pieces: 0 }
    }

    /// Every total at zero.
    pub fn fresh() -> (s: Stats)
        ensures
            s == Stats::zero(),
    {
        Stats { score: 0, lines: 0, level: 0, pieces: 0 }
    }

    /// Adds `points` to the score, saturating rather than wrapping.
    pub fn add_score(&mut self, points: u32)
        ensures
            *final(self) == (Stats { score: saturating_u32(old(self).score as int, points as int), ..*old(self) }),
    {
        self.score = self.score.saturating_add(points);
    }

    /// Records `rows` cleared.
    pub fn add_lines(&mut self, rows: u32)
        ensures
            *final(self) == (Stats { lines: saturating_u32(old(self).lines as int, rows as int), ..*old(self) }),
    {
        self.lines = self.lines.saturating_add(rows);
    }

    /// Records one more locked piece.
    pub fn add_piece(&mut self)
        ensures
            *final(self) == (Stats { pieces: saturating_u32(old(self).pieces as int, 1), ..*old(self) }),
    {
        self.pieces = self.pieces.saturating_add(1);
    }
}

} // verus!

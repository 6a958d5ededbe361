//! One bundle of every rule the engine consults.

use vstd::prelude::*;
use crate::rules::gravity::{ClassicGravity, GravityCurve};
use crate::rules::kick::{KickTable, SimpleKicks};
use crate::rules::level::{LevelCurve, LinesPerLevel};
use crate::rules::randomizer::{Randomizer, SevenBag};
use crate::rules::rng::{Rng, XorShift64};
use crate::rules::scoring::{GuidelineScoring, LineClear, ScoringRule};

verus! {

/// Every rule the engine needs, gathered behind one type.
///
/// The engine is generic over this single trait rather than over five separate
/// ones, which keeps its signature readable while leaving each rule replaceable
/// through the associated types.
pub trait RuleSet: Sized {
    /// Chooses the next piece.
    type Randomizer: Randomizer;
    /// Converts clears and drops into points.
    type Scoring: ScoringRule;
    /// Sets the falling speed.
    type Gravity: GravityCurve;
    /// Decides when the level advances.
    type Level: LevelCurve;
    /// Supplies rotation kick candidates.
    type Kicks: KickTable;

    /// The piece source.
    open spec fn spec_randomizer(&self) -> Self::Randomizer {
        arbitrary()
    }

    /// The scoring rule.
    open spec fn spec_scoring(&self) -> Self::Scoring {
        arbitrary()
    }

    /// The gravity curve.
    open spec fn spec_gravity(&self) -> Self::Gravity {
        arbitrary()
    }

    /// The level curve.
    open spec fn spec_level(&self) -> Self::Level {
        arbitrary()
    }

    /// The kick table.
    open spec fn spec_kicks(&self) -> Self::Kicks {
        arbitrary()
    }

    /// Mutable access to the piece source, which is consumed as the game runs;
    /// nothing else in the rule set changes through it.
    fn randomizer(&mut self) -> (r: &mut Self::Randomizer)
        ensures
            *r == old(self).spec_randomizer(),
            final(self).spec_randomizer() == *final(r),
            final(self).spec_scoring() == old(self).spec_scoring(),
            final(self).spec_gravity() == old(self).spec_gravity(),
            final(self).spec_level() == old(self).spec_level(),
            final(self).spec_kicks() == old(self).spec_kicks(),
    ;

    /// The piece source, for previewing without consuming.
    fn peek_randomizer(&self) -> (r: &Self::Randomizer)
        ensures
            *r == self.spec_randomizer(),
    ;

    /// The scoring rule.
    fn scoring(&self) -> (r: &Self::Scoring)
        ensures
            *r == self.spec_scoring(),
    ;

    /// The gravity curve.
    fn gravity(&self) -> (r: &Self::Gravity)
        ensures
            *r == self.spec_gravity(),
    ;

    /// The level curve.
    fn level(&self) -> (r: &Self::Level)
        ensures
            *r == self.spec_level(),
    ;

    /// The kick table.
    fn kicks(&self) -> (r: &Self::Kicks)
        ensures
            *r == self.spec_kicks(),
    ;
}

/// Whether a rule set can drive a game without arithmetic running away: every
/// clear pays a representable number of points at every level the game can
/// reach, so do a soft drop and a hard drop over any distance a board allows,
/// and a row of gravity always takes some time. With a zero interval a single
/// tick would drop and lock piece after piece for as long as the game lasts,
/// and on a board where the pieces keep clearing rows it would never return.
pub open spec fn rules_fit<R: RuleSet>(rules: R) -> bool {
    &&& forall|clear: LineClear| #[trigger] rules.spec_scoring().line_score(clear, 0) <= u32::MAX
    &&& forall|clear: LineClear, lines: u32|
        #[trigger] rules.spec_scoring().line_score(clear, rules.spec_level().level_of(lines))
            <= u32::MAX
    &&& forall|level: u32| #[trigger] rules.spec_gravity().interval_nanos(level) > 0
    &&& 0 <= rules.spec_scoring().soft_drop_score(1) <= u32::MAX
    &&& forall|cells: u32|
        cells <= u16::MAX ==> 0 <= #[trigger] rules.spec_scoring().hard_drop_score(cells) <= u32::MAX
}

/// The default rule set: seven-bag pieces, guideline scoring, classic gravity.
#[derive(Clone)]
pub struct StandardRules<R: Rng> {
    randomizer: SevenBag<R>,
    scoring: GuidelineScoring,
    gravity: ClassicGravity,
    level: LinesPerLevel,
    kicks: SimpleKicks,
}

impl<R: Rng> StandardRules<R> {
    /// Whether gravity and levels follow the classic curves: 800 ms a row at
    /// level zero, 60 ms faster each level down to 60 ms, and a level every ten
    /// lines up to level 29.
    pub open spec fn standard_curves(self) -> bool {
        &&& self.spec_gravity().start_nanos() == 800_000_000
        &&& self.spec_gravity().step_nanos() == 60_000_000
        &&& self.spec_gravity().floor_nanos() == 60_000_000
        &&& self.spec_level().rows_per_level() == 10
        &&& self.spec_level().top_level() == 29
    }

    /// Builds the standard rules drawing pieces from `rng`.
    pub fn new(rng: R) -> (rules: StandardRules<R>)
        ensures
            rules_fit(rules),
            rules.spec_randomizer().wf(),
            rules.spec_randomizer().history() == Seq::<crate::piece::Tetromino>::empty(),
            (rules.spec_randomizer().pending(), rules.spec_randomizer().source())
                == crate::rules::randomizer::fresh_bag(rng),
            rules.standard_curves(),
    {
        let rules = StandardRules {
            randomizer: SevenBag::new(rng),
            scoring: GuidelineScoring,
            gravity: ClassicGravity::default(),
            level: LinesPerLevel::default(),
            kicks: SimpleKicks,
        };
        proof {
            assert forall|clear: LineClear| #[trigger] rules.spec_scoring().line_score(clear, 0) <= u32::MAX by {
            }
            assert forall|clear: LineClear, lines: u32| #[trigger] rules.spec_scoring().line_score(
                clear,
                rules.spec_level().level_of(lines),
            ) <= u32::MAX by {
                let l = rules.spec_level().level_of(lines);
                assert(l <= 29);
                assert(crate::rules::scoring::base_points(clear) * (l + 1) <= 800 * 30) by (nonlinear_arith)
                    requires
                        0 <= l <= 29,
                        crate::rules::scoring::base_points(clear) <= 800,
                        crate::rules::scoring::base_points(clear) >= 0,
                ;
            }
            assert forall|level: u32| #[trigger] rules.spec_gravity().interval_nanos(level) > 0 by {
                rules.spec_gravity().lemma_never_slower(0, level);
            }
        }
        rules
    }
}

impl StandardRules<XorShift64> {
    /// Builds the standard rules with a reproducible piece sequence.
    pub fn seeded(seed: u64) -> (rules: StandardRules<XorShift64>)
        ensures
            rules_fit(rules),
            rules.spec_randomizer().wf(),
            rules.spec_randomizer().history() == Seq::<crate::piece::Tetromino>::empty(),
            (rules.spec_randomizer().pending(), rules.spec_randomizer().source())
                == crate::rules::randomizer::fresh_bag(XorShift64::new_spec(seed)),
            rules.standard_curves(),
    {
        StandardRules::new(XorShift64::new(seed))
    }

    /// Builds the standard rules seeded from the system clock, the seed made
    /// by [`crate::rules::rng::seed_from_epoch`] from the clock's reading.
    pub fn from_clock() -> (rules: StandardRules<XorShift64>)
        ensures
            rules_fit(rules),
            rules.spec_randomizer().wf(),
            rules.spec_randomizer().history() == Seq::<crate::piece::Tetromino>::empty(),
            rules.standard_curves(),
            exists|since: Option<std::time::Duration>|
                (rules.spec_randomizer().pending(), rules.spec_randomizer().source())
                    == crate::rules::randomizer::fresh_bag(
                    #[trigger] XorShift64::new_spec(crate::rules::rng::epoch_seed(since)),
                ),
    {
        let rng = XorShift64::from_clock();
        let rules = StandardRules::new(rng);
        proof {
            let since = choose|since: Option<std::time::Duration>|
                rng == #[trigger] XorShift64::new_spec(crate::rules::rng::epoch_seed(since));
            assert((rules.spec_randomizer().pending(), rules.spec_randomizer().source())
                == crate::rules::randomizer::fresh_bag(XorShift64::new_spec(crate::rules::rng::epoch_seed(since))));
        }
        rules
    }
}

impl<R: Rng> RuleSet for StandardRules<R> {
    type Randomizer = SevenBag<R>;
    type Scoring = GuidelineScoring;
    type Gravity = ClassicGravity;
    type Level = LinesPerLevel;
    type Kicks = SimpleKicks;

    closed spec fn spec_randomizer(&self) -> SevenBag<R> {
        self.randomizer
    }

    closed spec fn spec_scoring(&self) -> GuidelineScoring {
        self.scoring
    }

    closed spec fn spec_gravity(&self) -> ClassicGravity {
        self.gravity
    }

    closed spec fn spec_level(&self) -> LinesPerLevel {
        self.level
    }

    closed spec fn spec_kicks(&self) -> SimpleKicks {
        self.kicks
    }

    fn randomizer(&mut self) -> (r: &mut SevenBag<R>) {
        &mut self.randomizer
    }

    fn peek_randomizer(&self) -> (r: &SevenBag<R>) {
        &self.randomizer
    }

    fn scoring(&self) -> (r: &GuidelineScoring) {
        &self.scoring
    }

    fn gravity(&self) -> (r: &ClassicGravity) {
        &self.gravity
    }

    fn level(&self) -> (r: &LinesPerLevel) {
        &self.level
    }

    fn kicks(&self) -> (r: &SimpleKicks) {
        &self.kicks
    }
}

} // verus!

//! The rules of play, wired together and driven by actions and elapsed time.

use vstd::prelude::*;
use std::time::Duration;
use crate::board::grid::{blank_row, collapsed, full_rows, grid_field, locked, FieldView};
use crate::board::{Board, Cell, Playfield};
use crate::game::command::Action;
use crate::game::snapshot::Snapshot;
use crate::game::state::{saturating_u32, Phase, Stats};
use crate::geometry::{Offset, Point, Rotation, Spin};
use crate::piece::{ActivePiece, Shape, Tetromino};
use crate::rules::gravity::GravityCurve;
use crate::rules::kick::KickTable;
use crate::rules::level::LevelCurve;
use crate::rules::randomizer::Randomizer;
use crate::rules::ruleset::{rules_fit, RuleSet};
use crate::rules::scoring::{LineClear, ScoringRule};
use crate::time::{duration_nanos, nanos_of, saturating_nanos_add, MAX_NANOS};

verus! {

/// The column at which a piece whose box has side `side` spawns on a field
/// `width` wide: centred, rounding toward zero.
pub open spec fn spawn_column(width: int, side: int) -> int {
    if width >= side {
        (width - side) / 2
    } else {
        -((side - width) / 2)
    }
}

/// Where a piece of `kind` spawns on a field `width` wide: centred, top row.
pub open spec fn spawn_point(width: int, kind: Tetromino) -> Point {
    Point { x: spawn_column(width, kind.side()) as i16, y: 0 }
}

/// The first kick among `kicks[i..]` that moves `spun` to a position that can
/// be represented and fits on `field`, already applied.
pub open spec fn kick_dest(field: FieldView, spun: ActivePiece, kicks: Seq<Offset>, i: int) -> Option<ActivePiece>
    decreases kicks.len() - i,
{
    if i < 0 || i >= kicks.len() {
        None
    } else if spun.origin.can_shift(kicks[i]) && field.fits(spun.moved(kicks[i])) {
        Some(spun.moved(kicks[i]))
    } else {
        kick_dest(field, spun, kicks, i + 1)
    }
}

/// How gravity moves `piece` on `field` with `elapsed` nanoseconds owed and a
/// step every `interval`: one row per whole interval for as long as the row
/// below fits. Returns the piece, the time still owed, and whether the piece
/// was found resting with a step due, which locks it.
pub open spec fn fall(field: FieldView, piece: ActivePiece, elapsed: int, interval: int) -> (ActivePiece, int, bool)
    decreases elapsed,
{
    if interval <= 0 || elapsed < interval {
        (piece, elapsed, false)
    } else if piece.origin.can_shift(Offset { dx: 0, dy: 1 }) && field.fits(piece.moved(Offset { dx: 0, dy: 1 })) {
        fall(field, piece.moved(Offset { dx: 0, dy: 1 }), elapsed - interval, interval)
    } else {
        (piece, elapsed - interval, true)
    }
}

/// The totals after a lock that cleared `cleared` rows: one more piece, the
/// points for the clear at the level before it, the rows, and the level those
/// rows reach.
pub open spec fn stats_after_lock<S: ScoringRule, L: LevelCurve>(
    stats: Stats,
    cleared: int,
    scoring: S,
    curve: L,
) -> Stats {
    let counted = Stats { pieces: saturating_u32(stats.pieces as int, 1), ..stats };
    let scored = match LineClear::of_rows(cleared) {
        Some(clear) => Stats {
            score: saturating_u32(counted.score as int, scoring.line_score(clear, counted.level)),
            ..counted
        },
        None => counted,
    };
    let lined = Stats { lines: saturating_u32(scored.lines as int, cleared), ..scored };
    Stats { level: curve.level_of(lined.lines), ..lined }
}

/// The points a clear of `rows` rows pays under `scoring` at `level`: nothing
/// unless one to four rows cleared.
pub open spec fn clear_pay<S: ScoringRule>(scoring: S, rows: int, level: u32) -> int {
    if rows == 1 {
        scoring.line_score(LineClear::Single, level)
    } else if rows == 2 {
        scoring.line_score(LineClear::Double, level)
    } else if rows == 3 {
        scoring.line_score(LineClear::Triple, level)
    } else if rows == 4 {
        scoring.line_score(LineClear::Tetris, level)
    } else {
        0
    }
}

/// A clear is paid at the level in force before it: a lock that clears
/// `cleared` rows adds the clear's points at the old level, counts one more
/// piece and the rows, and only then moves the level to where the new line
/// total puts it.
pub proof fn law_clear_paid_at_the_level_before<S: ScoringRule, L: LevelCurve>(
    stats: Stats,
    cleared: int,
    scoring: S,
    curve: L,
)
    requires
        0 <= cleared,
    ensures
        stats_after_lock(stats, cleared, scoring, curve).score == saturating_u32(
            stats.score as int,
            clear_pay(scoring, cleared, stats.level),
        ),
        stats_after_lock(stats, cleared, scoring, curve).lines == saturating_u32(stats.lines as int, cleared),
        stats_after_lock(stats, cleared, scoring, curve).pieces == saturating_u32(stats.pieces as int, 1),
        stats_after_lock(stats, cleared, scoring, curve).level == curve.level_of(
            saturating_u32(stats.lines as int, cleared),
        ),
{
    if cleared == 0 || cleared > 4 {
        assert(saturating_u32(stats.score as int, 0) == stats.score);
    }
}

/// Whether the piece `r` draws next is the first it has queued, when it has
/// queued any: what the preview shows is what arrives.
pub open spec fn previews_next<Rd: Randomizer>(r: Rd) -> bool {
    r.queued().len() > 0 ==> r.next_of() == r.queued()[0]
}

/// Whether every clear pays a representable number of points at `level`.
pub open spec fn level_pays<R: RuleSet>(rules: R, level: u32) -> bool {
    forall|clear: LineClear| #[trigger] rules.spec_scoring().line_score(clear, level) <= u32::MAX
}

/// A game of Tetris.
///
/// The engine owns the board, the falling piece and the running totals, and it
/// consults [`RuleSet`] for every decision that could reasonably differ between
/// variants. It never reads a clock or a keyboard: time arrives through
/// [`Engine::tick`] and intent through [`Engine::apply`], which is what makes a
/// whole game reproducible in a test.
#[derive(Clone)]
pub struct Engine<R: RuleSet> {
    board: Board,
    rules: R,
    current: ActivePiece,
    phase: Phase,
    stats: Stats,
    elapsed: u128,
}

impl<R: RuleSet> Engine<R> {
    /// The locked stack.
    pub closed spec fn board_of(self) -> Board {
        self.board
    }

    /// The rules in force.
    pub closed spec fn rules_of(self) -> R {
        self.rules
    }

    /// The falling piece.
    pub closed spec fn piece(self) -> ActivePiece {
        self.current
    }

    /// What the game is doing.
    pub closed spec fn phase_of(self) -> Phase {
        self.phase
    }

    /// The running totals.
    pub closed spec fn stats_of(self) -> Stats {
        self.stats
    }

    /// Nanoseconds of time owed to gravity.
    pub closed spec fn elapsed_of(self) -> int {
        self.elapsed as int
    }

    /// The time owed is never negative.
    pub proof fn lemma_elapsed_non_negative(self)
        ensures
            self.elapsed_of() >= 0,
    {
    }

    /// The playfield of the locked stack.
    pub open spec fn field(self) -> FieldView {
        self.board_of().field()
    }

    /// The engine's own consistency: the rules can drive a game, the time owed
    /// is a representable duration, and the falling piece sits where its cells
    /// can be computed and moved by a few squares.
    pub open spec fn wf(self) -> bool {
        &&& rules_fit(self.rules_of())
        &&& self.elapsed_of() <= MAX_NANOS
        &&& self.piece().placeable()
        &&& self.piece().origin.x >= -4
        &&& self.piece().origin.y >= -4
        &&& level_pays(self.rules_of(), self.stats_of().level)
        &&& previews_next(self.rules_of().spec_randomizer())
    }

    /// Unless the game is over, the falling piece fits on the board: it lies
    /// inside the field and overlaps nothing locked.
    pub open spec fn placed(self) -> bool {
        !(self.phase_of() is Over) ==> self.field().fits(self.piece())
    }

    /// Whether `other` keeps this game's board and rules, with the falling
    /// piece, totals, phase and time owed as given.
    pub open spec fn becomes(self, other: Self, p: ActivePiece, stats: Stats, phase: Phase, elapsed: int) -> bool {
        &&& other.board_of().same(self.board_of())
        &&& other.rules_of() == self.rules_of()
        &&& other.piece() == p
        &&& other.phase_of() == phase
        &&& other.stats_of() == stats
        &&& other.elapsed_of() == elapsed
    }

    /// Whether `other` holds the same game as this one.
    pub open spec fn same_state(self, other: Self) -> bool {
        self.becomes(other, self.piece(), self.stats_of(), self.phase_of(), self.elapsed_of())
    }

    /// Whether `other` is this game with only the falling piece replaced by `p`
    /// and the totals by `stats`.
    pub open spec fn moved_to(self, other: Self, p: ActivePiece, stats: Stats) -> bool {
        self.becomes(other, p, stats, self.phase_of(), self.elapsed_of())
    }

    /// The piece moved by `off`, if it can be and then still fits.
    pub open spec fn shift_dest(self, off: Offset) -> Option<ActivePiece> {
        if self.piece().origin.can_shift(off) && self.field().fits(self.piece().moved(off)) {
            Some(self.piece().moved(off))
        } else {
            None
        }
    }

    /// The piece turned by `spin` and moved by the first kick that fits.
    pub open spec fn rotate_dest(self, spin: Spin) -> Option<ActivePiece> {
        kick_dest(
            self.field(),
            self.piece().turned_by(spin),
            self.rules_of().spec_kicks().spec_candidates(),
            0,
        )
    }

    /// The piece the next spawn places.
    pub open spec fn spawn_piece(self) -> ActivePiece {
        let kind = self.rules_of().spec_randomizer().next_of();
        ActivePiece { kind, origin: spawn_point(self.board_of().cols(), kind), rotation: Rotation::Spawn }
    }

    /// Whether `next` is this game with the board holding `grid`, the totals
    /// `stats`, and a freshly drawn piece spawned: the game is over when that
    /// piece does not fit, and otherwise stays in `phase`.
    pub open spec fn spawns_into(self, grid: Seq<Seq<Cell>>, stats: Stats, phase: Phase, next: Self) -> bool {
        let w = self.board_of().cols();
        let h = self.board_of().lines();
        let p = self.spawn_piece();
        &&& next.board_of().cols() == w
        &&& next.board_of().lines() == h
        &&& next.board_of().grid() == grid
        &&& next.stats_of() == stats
        &&& next.piece() == p
        &&& next.phase_of() == (if grid_field(w, h, grid).fits(p) { phase } else { Phase::Over })
        &&& next.elapsed_of() == 0
        &&& self.rules_of().spec_randomizer().drawn_into(next.rules_of().spec_randomizer())
        &&& next.rules_of().spec_scoring() == self.rules_of().spec_scoring()
        &&& next.rules_of().spec_gravity() == self.rules_of().spec_gravity()
        &&& next.rules_of().spec_level() == self.rules_of().spec_level()
        &&& next.rules_of().spec_kicks() == self.rules_of().spec_kicks()
    }

    /// Whether `next` is this game after `piece` locks with the totals at
    /// `stats`: the piece joins the stack, full rows clear, the totals advance
    /// and the next piece spawns.
    pub open spec fn locks_into(self, piece: ActivePiece, stats: Stats, next: Self) -> bool {
        let w = self.board_of().cols();
        let h = self.board_of().lines();
        let stacked = locked(self.board_of().grid(), w, h, piece);
        let cleared = full_rows(stacked, h).len() as int;
        self.spawns_into(
            collapsed(stacked, w),
            stats_after_lock(stats, cleared, self.rules_of().spec_scoring(), self.rules_of().spec_level()),
            self.phase_of(),
            next,
        )
    }

    /// Whether `next` is this game restarted: an empty board of the same size,
    /// every total at zero, playing, with a fresh piece spawned.
    pub open spec fn restarts_into(self, next: Self) -> bool {
        self.spawns_into(
            Seq::new(self.board_of().lines() as nat, |_r: int| blank_row(self.board_of().cols())),
            Stats::zero(),
            Phase::Playing,
            next,
        )
    }

    /// Whether `next` is this game after a soft drop.
    pub open spec fn soft_drops_into(self, next: Self) -> bool {
        match self.shift_dest(Offset { dx: 0, dy: 1 }) {
            Some(p) => self.moved_to(
                next,
                p,
                Stats {
                    score: saturating_u32(self.stats_of().score as int, self.rules_of().spec_scoring().soft_drop_score(1)),
                    ..self.stats_of()
                },
            ),
            None => self.locks_into(self.piece(), self.stats_of(), next),
        }
    }

    /// Whether `next` is this game after a hard drop: the piece falls to where
    /// the ghost shows, earns what the scoring rule pays for the rows fallen and locks.
    pub open spec fn hard_drops_into(self, next: Self) -> bool {
        let landed = self.field().landed_from(self.piece());
        let distance = landed.origin.y - self.piece().origin.y;
        self.locks_into(
            landed,
            Stats { score: saturating_u32(
                self.stats_of().score as int,
                self.rules_of().spec_scoring().hard_drop_score(distance as u32),
            ), ..self.stats_of() },
            next,
        )
    }

    /// Whether `next` is this game after `action`. Quitting changes nothing;
    /// restart and pause always apply; every other action is ignored unless the
    /// game is running.
    pub open spec fn applies(self, action: Action, next: Self) -> bool {
        match action {
            Action::Quit => next.same_state(self),
            Action::Restart => self.restarts_into(next),
            Action::TogglePause => self.becomes(
                next,
                self.piece(),
                self.stats_of(),
                self.phase_of().spec_toggled(),
                self.elapsed_of(),
            ),
            _ => if !(self.phase_of() is Playing) {
                next.same_state(self)
            } else {
                match action {
                    Action::MoveLeft => match self.shift_dest(Offset { dx: -1i16, dy: 0 }) {
                        Some(p) => self.moved_to(next, p, self.stats_of()),
                        None => next.same_state(self),
                    },
                    Action::MoveRight => match self.shift_dest(Offset { dx: 1, dy: 0 }) {
                        Some(p) => self.moved_to(next, p, self.stats_of()),
                        None => next.same_state(self),
                    },
                    Action::Rotate(spin) => match self.rotate_dest(spin) {
                        Some(p) => self.moved_to(next, p, self.stats_of()),
                        None => next.same_state(self),
                    },
                    Action::SoftDrop => self.soft_drops_into(next),
                    _ => self.hard_drops_into(next),
                }
            },
        }
    }

    /// The delay between gravity steps at the current level.
    pub open spec fn interval(self) -> int {
        self.rules_of().spec_gravity().interval_nanos(self.stats_of().level)
    }

    /// Whether `next` is this game after `delta` nanoseconds pass. Nothing
    /// happens unless the game is running; otherwise the time is added to what
    /// is owed and gravity takes one row per whole interval until the piece
    /// rests with a step due, when it locks.
    pub open spec fn ticks_into(self, delta: int, next: Self) -> bool {
        if !(self.phase_of() is Playing) {
            next.same_state(self)
        } else {
            let owed = saturating_nanos_add(self.elapsed_of(), delta);
            let (p, rest, lock) = fall(self.field(), self.piece(), owed, self.interval());
            if lock {
                self.locks_into(p, self.stats_of(), next)
            } else {
                self.becomes(next, p, self.stats_of(), self.phase_of(), rest)
            }
        }
    }
}

/// A piece that fits has its origin at most three squares outside the field,
/// since every cell lies inside the field and inside the piece's box.
pub proof fn lemma_fitting_origin(field: FieldView, p: ActivePiece)
    requires
        field.fits(p),
    ensures
        p.origin.x >= -3,
        p.origin.y >= -3,
        p.placeable(),
{
    p.lemma_cells_in_box();
    let c = p.spec_cells();
    assert(field.free_at(c[0]));
    let o = p.kind.footprint(p.rotation)[0];
    assert(c[0] == p.origin.plus(o));
}

/// Dropping a placeable piece keeps its column, kind and rotation, never raises
/// it, and leaves it placeable.
pub proof fn lemma_landed_below(field: FieldView, p: ActivePiece)
    requires
        p.placeable(),
    ensures
        field.landed_from(p).origin.y >= p.origin.y,
        field.landed_from(p).origin.x == p.origin.x,
        field.landed_from(p).kind == p.kind,
        field.landed_from(p).rotation == p.rotation,
        field.landed_from(p).placeable(),
        field.fits(p) ==> field.fits(field.landed_from(p)),
    decreases i16::MAX - p.origin.y,
{
    let down = Offset { dx: 0, dy: 1 };
    if p.origin.y < i16::MAX - 3 && field.fits(p.moved(down)) {
        lemma_landed_below(field, p.moved(down));
    }
}

/// The spawn position of any piece on any field of positive width is placeable
/// and near the top-left of the field.
pub proof fn lemma_spawn_placeable(width: int, kind: Tetromino)
    requires
        0 < width <= i16::MAX,
    ensures
        (ActivePiece { kind, origin: spawn_point(width, kind), rotation: Rotation::Spawn }).placeable(),
        spawn_point(width, kind).x >= -4,
        spawn_point(width, kind).y >= -4,
        spawn_point(width, kind).x == spawn_column(width, kind.side()),
{
}

/// Whether a lock leads to a given game depends only on the board, the rules
/// and the phase of the game it starts from.
pub proof fn lemma_locks_into_congruent<R: RuleSet>(
    a: Engine<R>,
    b: Engine<R>,
    piece: ActivePiece,
    stats: Stats,
    next: Engine<R>,
)
    requires
        a.board_of().same(b.board_of()),
        a.rules_of() == b.rules_of(),
        a.phase_of() == b.phase_of(),
    ensures
        a.locks_into(piece, stats, next) == b.locks_into(piece, stats, next),
{
}

/// The full rows of the first `n` rows number at most `n`.
pub proof fn lemma_full_rows_bounded(g: Seq<Seq<Cell>>, n: int)
    requires
        0 <= n <= g.len(),
    ensures
        full_rows(g, n).len() <= n,
{
    crate::board::grid::lemma_rows_partition(g, n);
}

impl<R: RuleSet> Engine<R> {
    /// How many upcoming pieces a snapshot carries.
    pub const PREVIEW: usize = 5;

    /// The column at which `kind` spawns on `board`.
    fn spawn_origin(board: &Board, kind: Tetromino) -> (p: Point)
        ensures
            p == spawn_point(board.cols(), kind),
    {
        proof {
            use_type_invariant(board);
        }
        let width = board.width();
        let side = kind.bounding_box();
        let x = if width >= side { (width - side) / 2 } else { -((side - width) / 2) };
        Point::new(x, 0)
    }

    /// Starts a game on `board` under `rules`, spawning the first piece; the
    /// game is over from the start when that piece cannot fit.
    pub fn new(board: Board, rules: R) -> (e: Engine<R>)
        requires
            rules_fit(rules),
        ensures
            e.wf(),
            e.board_of().same(board),
            e.stats_of() == Stats::zero(),
            e.elapsed_of() == 0,
            e.piece() == (ActivePiece {
                kind: rules.spec_randomizer().next_of(),
                origin: spawn_point(board.cols(), rules.spec_randomizer().next_of()),
                rotation: Rotation::Spawn,
            }),
            e.phase_of() == (if board.field().fits(e.piece()) { Phase::Playing } else { Phase::Over }),
            rules.spec_randomizer().drawn_into(e.rules_of().spec_randomizer()),
            e.rules_of().spec_scoring() == rules.spec_scoring(),
            e.rules_of().spec_gravity() == rules.spec_gravity(),
            e.rules_of().spec_level() == rules.spec_level(),
            e.rules_of().spec_kicks() == rules.spec_kicks(),
    {
        let mut rules = rules;
        let kind = rules.randomizer().next_piece();
        let origin = Engine::<R>::spawn_origin(&board, kind);
        proof {
            use_type_invariant(&board);
            lemma_spawn_placeable(board.cols(), kind);
        }
        let current = ActivePiece::new(kind, origin);
        let phase = if board.accepts(&current) {
            Phase::Playing
        } else {
            Phase::Over
        };
        Engine { current, board, rules, phase, stats: Stats::fresh(), elapsed: 0 }
    }

    /// The locked stack.
    pub fn board(&self) -> (b: &Board)
        ensures
            *b == self.board_of(),
    {
        &self.board
    }

    /// The piece currently falling.
    pub fn current(&self) -> (p: &ActivePiece)
        ensures
            *p == self.piece(),
    {
        &self.current
    }

    /// Where the falling piece would land if dropped now.
    pub fn ghost_piece(&self) -> (p: ActivePiece)
        ensures
            p == self.field().landed_from(self.piece()),
    {
        self.board.landed(&self.current)
    }

    /// The upcoming pieces, soonest first.
    pub fn next_pieces(&self, count: usize) -> (v: Vec<Tetromino>)
        ensures
            v@ == self.rules_of().spec_randomizer().queued().take(
                if count <= self.rules_of().spec_randomizer().queued().len() {
                    count as int
                } else {
                    self.rules_of().spec_randomizer().queued().len() as int
                },
            ),
    {
        self.rules.peek_randomizer().peek(count)
    }

    /// The running totals.
    pub fn stats(&self) -> (s: Stats)
        ensures
            s == self.stats_of(),
    {
        self.stats
    }

    /// What the game is currently doing.
    pub fn phase(&self) -> (p: Phase)
        ensures
            p == self.phase_of(),
    {
        self.phase
    }

    /// Whether `shot` pictures this game faithfully: the same board, the
    /// falling piece and where it would land, the first few upcoming pieces,
    /// the totals and the phase.
    pub open spec fn shows(self, shot: Snapshot) -> bool {
        let queued = self.rules_of().spec_randomizer().queued();
        &&& shot.board.same(self.board_of())
        &&& shot.current == self.piece()
        &&& shot.ghost_piece == self.field().landed_from(self.piece())
        &&& shot.next@ == queued.take(if 5 <= queued.len() { 5 } else { queued.len() as int })
        &&& shot.stats == self.stats_of()
        &&& shot.phase == self.phase_of()
    }

    /// Takes an immutable picture of the game for rendering.
    pub fn snapshot(&self) -> (shot: Snapshot)
        ensures
            self.shows(shot),
            shot.board.same(self.board_of()),
            shot.current == self.piece(),
            shot.ghost_piece == self.field().landed_from(self.piece()),
            shot.next@ == self.rules_of().spec_randomizer().queued().take(
                if 5 <= self.rules_of().spec_randomizer().queued().len() {
                    5
                } else {
                    self.rules_of().spec_randomizer().queued().len() as int
                },
            ),
            shot.stats == self.stats_of(),
            shot.phase == self.phase_of(),
    {
        Snapshot {
            board: self.board.clone(),
            current: self.current,
            ghost_piece: self.ghost_piece(),
            next: self.next_pieces(Engine::<R>::PREVIEW),
            stats: self.stats,
            phase: self.phase,
        }
    }

    /// Moves the falling piece by `offset` if the result fits.
    fn try_shift(&mut self, offset: Offset) -> (moved: bool)
        requires
            old(self).wf(),
            -1 <= offset.dx <= 1,
            -1 <= offset.dy <= 1,
        ensures
            final(self).wf(),
            match old(self).shift_dest(offset) {
                Some(p) => moved && old(self).moved_to(*final(self), p, old(self).stats_of()),
                None => !moved && final(self).same_state(*old(self)),
            },
    {
        let candidate = self.current.shifted(offset);
        let fits = self.board.accepts(&candidate);
        if fits {
            proof {
                lemma_fitting_origin(self.board.field(), candidate);
            }
            self.current = candidate;
        }
        fits
    }

    /// Turns the falling piece by `spin`, trying each kick in turn.
    fn try_rotate(&mut self, spin: Spin) -> (turned: bool)
        requires
            old(self).wf(),
        ensures
            final(self).wf(),
            match old(self).rotate_dest(spin) {
                Some(p) => turned && old(self).moved_to(*final(self), p, old(self).stats_of()),
                None => !turned && final(self).same_state(*old(self)),
            },
    {
        let spun = self.current.spun(spin);
        let kicks = self.rules.kicks().candidates();
        let ghost field = self.board.field();
        let mut i: usize = 0;
        while i < kicks.len()
            invariant
                i <= kicks@.len(),
                kicks@ == self.rules_of().spec_kicks().spec_candidates(),
                field == self.board.field(),
                spun == self.current.turned_by(spin),
                kick_dest(field, spun, kicks@, 0) == kick_dest(field, spun, kicks@, i as int),
                *self == *old(self),
                self.wf(),
            decreases kicks@.len() - i,
        {
            let kick = kicks[i];
            let nx = spun.origin.x as i32 + kick.dx as i32;
            let ny = spun.origin.y as i32 + kick.dy as i32;
            if -32768 <= nx && nx <= 32767 && -32768 <= ny && ny <= 32767 {
                let candidate = spun.shifted(kick);
                if self.board.accepts(&candidate) {
                    proof {
                        lemma_fitting_origin(field, candidate);
                    }
                    self.current = candidate;
                    return true;
                }
            }
            i = i + 1;
        }
        false
    }

    /// Draws the next piece and places it at the top, ending the game when it
    /// does not fit.
    fn spawn(&mut self)
        requires
            old(self).wf(),
        ensures
            final(self).wf(),
            old(self).spawns_into(old(self).board_of().grid(), old(self).stats_of(), old(self).phase_of(), *final(self)),
    {
        let kind = self.rules.randomizer().next_piece();
        let piece = ActivePiece::new(kind, Engine::<R>::spawn_origin(&self.board, kind));
        proof {
            use_type_invariant(&self.board);
            lemma_spawn_placeable(self.board.cols(), kind);
        }
        self.current = piece;
        if !self.board.accepts(&piece) {
            self.phase = Phase::Over;
        }
        self.elapsed = 0;
    }

    /// Locks the falling piece, clears full rows, updates the totals and spawns
    /// the next piece.
    fn lock(&mut self)
        requires
            old(self).wf(),
        ensures
            final(self).wf(),
            old(self).locks_into(old(self).piece(), old(self).stats_of(), *final(self)),
    {
        let ghost start = *self;
        proof {
            use_type_invariant(&self.board);
            self.current.lemma_placeable_computable();
        }
        self.board.lock(&self.current);
        self.stats.add_piece();
        let cleared = self.board.clear_full_rows();
        proof {
            use_type_invariant(&self.board);
            let stacked = locked(start.board_of().grid(), start.board_of().cols(), start.board_of().lines(), start.piece());
            lemma_full_rows_bounded(stacked, start.board_of().lines());
            assert(cleared@.len() == cleared@.map_values(|r: i16| r as int).len());
        }
        match LineClear::from_rows(cleared.len()) {
            Some(clear) => {
                let points = self.rules.scoring().line_points(clear, self.stats.level);
                self.stats.add_score(points);
            },
            None => {},
        }
        self.stats.add_lines(cleared.len() as u32);
        self.stats.level = self.rules.level().level_for(self.stats.lines);
        self.spawn();
    }

    /// Steps the piece down one row by hand, locking it when it cannot move.
    fn soft_drop(&mut self)
        requires
            old(self).wf(),
        ensures
            final(self).wf(),
            old(self).soft_drops_into(*final(self)),
    {
        if self.try_shift(Offset::down()) {
            let points = self.rules.scoring().soft_drop_points(1);
            self.stats.add_score(points);
        } else {
            self.lock();
        }
    }

    /// Drops the piece to its landing position, pays for the distance and
    /// locks it.
    fn hard_drop(&mut self)
        requires
            old(self).wf(),
        ensures
            final(self).wf(),
            old(self).hard_drops_into(*final(self)),
    {
        let landed = self.board.landed(&self.current);
        proof {
            lemma_landed_below(self.board.field(), self.current);
        }
        let fallen: i32 = landed.origin.y as i32 - self.current.origin.y as i32;
        let distance: u32 = if fallen > 0 { fallen as u32 } else { 0 };
        self.current = landed;
        let points = self.rules.scoring().hard_drop_points(distance);
        self.stats.add_score(points);
        self.lock();
    }

    /// Applies a player action.
    ///
    /// Actions that need a falling piece are ignored unless the game is running,
    /// so a paused or finished game cannot be played by accident.
    pub fn apply(&mut self, action: Action)
        requires
            old(self).wf(),
        ensures
            final(self).wf(),
            old(self).applies(action, *final(self)),
    {
        match action {
            Action::Quit => {},
            Action::Restart => self.restart(),
            Action::TogglePause => {
                self.phase = self.phase.toggled_pause();
            },
            _ => {
                if !self.phase.is_running() {
                } else {
                    match action {
                        Action::MoveLeft => {
                            self.try_shift(Offset::left());
                        },
                        Action::MoveRight => {
                            self.try_shift(Offset::right());
                        },
                        Action::Rotate(spin) => {
                            self.try_rotate(spin);
                        },
                        Action::SoftDrop => self.soft_drop(),
                        _ => self.hard_drop(),
                    }
                }
            },
        }
    }

    /// Advances the game by `delta` of elapsed time.
    ///
    /// Time is accumulated rather than truncated, so a slow frame still applies
    /// every gravity step it was owed instead of silently losing them.
    pub fn tick(&mut self, delta: Duration)
        requires
            old(self).wf(),
        ensures
            final(self).wf(),
            old(self).ticks_into(nanos_of(delta), *final(self)),
    {
        if !self.phase.is_running() {
            return;
        }
        let more = duration_nanos(delta);
        self.elapsed = if self.elapsed > MAX_NANOS - more { MAX_NANOS } else { self.elapsed + more };
        let ghost start = *old(self);
        let ghost owed = self.elapsed_of();
        let ghost mut done = false;
        while self.phase.is_running()
            invariant
                self.wf(),
                start.wf(),
                start.phase_of() is Playing,
                owed == saturating_nanos_add(start.elapsed_of(), nanos_of(delta)),
                !done ==> {
                    &&& start.becomes(*self, self.piece(), start.stats_of(), start.phase_of(), self.elapsed_of())
                    &&& fall(self.field(), self.piece(), self.elapsed_of(), self.interval()) == fall(
                        start.field(),
                        start.piece(),
                        owed,
                        start.interval(),
                    )
                },
                done ==> {
                    &&& self.elapsed_of() == 0
                    &&& start.ticks_into(nanos_of(delta), *self)
                },
            ensures
                !done ==> self.elapsed_of() < self.interval(),
            decreases self.elapsed_of(),
        {
            let interval = duration_nanos(self.rules.gravity().interval(self.stats.level));
            if self.elapsed < interval {
                break;
            }
            self.elapsed = self.elapsed - interval;
            let ghost before_step = *self;
            if !self.try_shift(Offset::down()) {
                let ghost resting = *self;
                self.lock();
                proof {
                    lemma_locks_into_congruent(start, resting, resting.piece(), start.stats_of(), *self);
                    done = true;
                }
            }
        }
    }

    /// Abandons the current game and starts a fresh one on an empty board.
    pub fn restart(&mut self)
        requires
            old(self).wf(),
        ensures
            final(self).wf(),
            old(self).restarts_into(*final(self)),
    {
        proof {
            use_type_invariant(&self.board);
        }
        self.board = Board::new(self.board.width(), self.board.height());
        self.stats = Stats::fresh();
        self.phase = Phase::Playing;
        self.elapsed = 0;
        self.spawn();
    }
}

} // verus!

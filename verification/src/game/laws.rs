//! What every move and every tick keeps true of a game.

use vstd::prelude::*;
use crate::board::grid::{blank_row, FieldView};
use crate::game::command::Action;
use crate::game::engine::{fall, kick_dest, lemma_landed_below, spawn_point, Engine};
use crate::game::state::{Phase, Stats};
use crate::geometry::{Offset, Rotation};
use crate::piece::ActivePiece;
use crate::rules::kick::KickTable;
use crate::rules::randomizer::Randomizer;
use crate::rules::ruleset::RuleSet;
use crate::rules::scoring::{LineClear, ScoringRule};

verus! {

/// Whether the falling piece of `e` sits where it was spawned: at the spawn
/// point of its kind, unturned.
pub open spec fn at_spawn<R: RuleSet>(e: Engine<R>) -> bool {
    &&& e.piece().origin == spawn_point(e.board_of().cols(), e.piece().kind)
    &&& e.piece().rotation == Rotation::Spawn
}

/// Whether the falling piece of `e` is somewhere play can leave it: on the
/// board, overlapping nothing, or still where it was spawned.
pub open spec fn in_play<R: RuleSet>(e: Engine<R>) -> bool {
    e.field().fits(e.piece()) || at_spawn(e)
}

/// Whether `rules` never take points away for a clear.
pub open spec fn scores_non_negative<R: RuleSet>(rules: R) -> bool {
    forall|clear: LineClear, level: u32| #[trigger] rules.spec_scoring().line_score(clear, level) >= 0
}

/// Whether `later` has every total of `earlier` or more.
pub open spec fn totals_kept(earlier: Stats, later: Stats) -> bool {
    &&& later.score >= earlier.score
    &&& later.lines >= earlier.lines
    &&& later.pieces >= earlier.pieces
}

/// Gravity leaves a piece where it was or moves it to a place where it fits.
pub proof fn lemma_fall_fits(field: FieldView, piece: ActivePiece, elapsed: int, interval: int)
    ensures
        fall(field, piece, elapsed, interval).0 == piece || field.fits(fall(field, piece, elapsed, interval).0),
        fall(field, piece, elapsed, interval).0.origin.y >= piece.origin.y,
    decreases elapsed,
{
    let down = Offset { dx: 0, dy: 1 };
    if interval <= 0 || elapsed < interval {
    } else if piece.origin.can_shift(down) && field.fits(piece.moved(down)) {
        lemma_fall_fits(field, piece.moved(down), elapsed - interval, interval);
    }
}

/// Dropping a piece either leaves it where it was or brings it to rest where
/// it fits.
pub proof fn lemma_landed_fits_or_stays(field: FieldView, p: ActivePiece)
    ensures
        field.landed_from(p) == p || field.fits(field.landed_from(p)),
    decreases i16::MAX - p.origin.y,
{
    let down = Offset { dx: 0, dy: 1 };
    if p.origin.y < i16::MAX - 3 && field.fits(p.moved(down)) {
        lemma_landed_fits_or_stays(field, p.moved(down));
    }
}

/// A kick is only ever taken to a place where the turned piece fits.
pub proof fn lemma_kick_fits(field: FieldView, spun: ActivePiece, kicks: Seq<Offset>, i: int)
    ensures
        kick_dest(field, spun, kicks, i) matches Some(p) ==> field.fits(p),
    decreases kicks.len() - i,
{
    if 0 <= i < kicks.len() && !(spun.origin.can_shift(kicks[i]) && field.fits(spun.moved(kicks[i]))) {
        lemma_kick_fits(field, spun, kicks, i + 1);
    }
}

/// A game that spawns a piece has that piece at its spawn point, and its
/// piece fits unless the game is over.
proof fn lemma_spawned<R: RuleSet>(e: Engine<R>, grid: Seq<Seq<crate::board::Cell>>, stats: Stats, phase: Phase, next: Engine<R>)
    requires
        e.spawns_into(grid, stats, phase, next),
    ensures
        at_spawn(next),
        next.placed(),
        in_play(next),
{
}

/// The falling piece never leaves play: whatever the player does, it either
/// fits on the board or sits where it spawned.
pub proof fn law_apply_keeps_piece_in_play<R: RuleSet>(e: Engine<R>, action: Action, next: Engine<R>)
    requires
        e.wf(),
        in_play(e),
        e.applies(action, next),
    ensures
        in_play(next),
{
    if let Action::Rotate(spin) = action {
        lemma_kick_fits(e.field(), e.piece().turned_by(spin), e.rules_of().spec_kicks().spec_candidates(), 0);
    }
    match action {
        Action::Restart => {
            lemma_spawned(
                e,
                Seq::new(e.board_of().lines() as nat, |_r: int| blank_row(e.board_of().cols())),
                Stats::zero(),
                Phase::Playing,
                next,
            );
        },
        Action::SoftDrop | Action::HardDrop => {
            if e.phase_of() is Playing {
                if action == Action::SoftDrop && e.shift_dest(Offset { dx: 0, dy: 1 }) is Some {
                } else {
                    let piece = if action == Action::SoftDrop {
                        e.piece()
                    } else {
                        e.field().landed_from(e.piece())
                    };
                    let distance = piece.origin.y - e.piece().origin.y;
                    let stats = if action == Action::SoftDrop {
                        e.stats_of()
                    } else {
                        Stats { score: crate::game::state::saturating_u32(e.stats_of().score as int, e.rules_of().spec_scoring().hard_drop_score(distance as u32)), ..e.stats_of() }
                    };
                    assert(e.locks_into(piece, stats, next));
                }
            }
        },
        _ => {},
    }
}

/// The falling piece never leaves play as time passes.
pub proof fn law_tick_keeps_piece_in_play<R: RuleSet>(e: Engine<R>, delta: int, next: Engine<R>)
    requires
        e.wf(),
        in_play(e),
        e.ticks_into(delta, next),
    ensures
        in_play(next),
{
    if e.phase_of() is Playing {
        let owed = crate::time::saturating_nanos_add(e.elapsed_of(), delta);
        let (p, rest, lock) = fall(e.field(), e.piece(), owed, e.interval());
        lemma_fall_fits(e.field(), e.piece(), owed, e.interval());
        if lock {
            assert(e.locks_into(p, e.stats_of(), next));
        }
    }
}

/// Unless the game is over, a falling piece that fits on the board still fits
/// after any action: pieces never overlap the stack or leave the board.
pub proof fn law_apply_keeps_piece_placed<R: RuleSet>(e: Engine<R>, action: Action, next: Engine<R>)
    requires
        e.wf(),
        e.placed(),
        e.applies(action, next),
    ensures
        next.placed(),
{
    if let Action::Rotate(spin) = action {
        lemma_kick_fits(e.field(), e.piece().turned_by(spin), e.rules_of().spec_kicks().spec_candidates(), 0);
    }
    match action {
        Action::Restart => {
            lemma_spawned(
                e,
                Seq::new(e.board_of().lines() as nat, |_r: int| blank_row(e.board_of().cols())),
                Stats::zero(),
                Phase::Playing,
                next,
            );
        },
        Action::SoftDrop | Action::HardDrop => {
            if e.phase_of() is Playing {
                if action == Action::SoftDrop && e.shift_dest(Offset { dx: 0, dy: 1 }) is Some {
                } else {
                    let piece = if action == Action::SoftDrop {
                        e.piece()
                    } else {
                        e.field().landed_from(e.piece())
                    };
                    let distance = piece.origin.y - e.piece().origin.y;
                    let stats = if action == Action::SoftDrop {
                        e.stats_of()
                    } else {
                        Stats { score: crate::game::state::saturating_u32(e.stats_of().score as int, e.rules_of().spec_scoring().hard_drop_score(distance as u32)), ..e.stats_of() }
                    };
                    assert(e.locks_into(piece, stats, next));
                }
            }
        },
        _ => {},
    }
}

/// Unless the game is over, a falling piece that fits still fits after time
/// passes.
pub proof fn law_tick_keeps_piece_placed<R: RuleSet>(e: Engine<R>, delta: int, next: Engine<R>)
    requires
        e.wf(),
        e.placed(),
        e.ticks_into(delta, next),
    ensures
        next.placed(),
{
    if e.phase_of() is Playing {
        let owed = crate::time::saturating_nanos_add(e.elapsed_of(), delta);
        let (p, rest, lock) = fall(e.field(), e.piece(), owed, e.interval());
        lemma_fall_fits(e.field(), e.piece(), owed, e.interval());
        if lock {
            assert(e.locks_into(p, e.stats_of(), next));
        }
    }
}

/// A lock never lowers a total, as long as clears never cost points.
proof fn lemma_lock_keeps_totals<R: RuleSet>(e: Engine<R>, piece: ActivePiece, stats: Stats, next: Engine<R>)
    requires
        e.wf(),
        scores_non_negative(e.rules_of()),
        totals_kept(e.stats_of(), stats),
        e.locks_into(piece, stats, next),
    ensures
        totals_kept(e.stats_of(), next.stats_of()),
        next.stats_of().pieces == crate::game::state::saturating_u32(stats.pieces as int, 1),
{
    let cleared = crate::board::grid::full_rows(
        crate::board::grid::locked(e.board_of().grid(), e.board_of().cols(), e.board_of().lines(), piece),
        e.board_of().lines(),
    ).len() as int;
    match LineClear::of_rows(cleared) {
        Some(clear) => {
            assert(e.rules_of().spec_scoring().line_score(clear, stats.level) >= 0);
        },
        None => {},
    }
}

/// Nothing the player does, short of restarting, lowers the score, the rows
/// cleared or the pieces placed.
pub proof fn law_apply_keeps_totals<R: RuleSet>(e: Engine<R>, action: Action, next: Engine<R>)
    requires
        e.wf(),
        scores_non_negative(e.rules_of()),
        action != Action::Restart,
        e.applies(action, next),
    ensures
        totals_kept(e.stats_of(), next.stats_of()),
{
    if e.phase_of() is Playing {
        match action {
            Action::SoftDrop => {
                if e.shift_dest(Offset { dx: 0, dy: 1 }) is None {
                    lemma_lock_keeps_totals(e, e.piece(), e.stats_of(), next);
                }
            },
            Action::HardDrop => {
                let landed = e.field().landed_from(e.piece());
                lemma_landed_below(e.field(), e.piece());
                let distance = landed.origin.y - e.piece().origin.y;
                let stats = Stats {
                    score: crate::game::state::saturating_u32(e.stats_of().score as int, e.rules_of().spec_scoring().hard_drop_score(distance as u32)),
                    ..e.stats_of()
                };
                lemma_lock_keeps_totals(e, landed, stats, next);
            },
            _ => {},
        }
    }
}

/// Time passing never lowers a total.
pub proof fn law_tick_keeps_totals<R: RuleSet>(e: Engine<R>, delta: int, next: Engine<R>)
    requires
        e.wf(),
        scores_non_negative(e.rules_of()),
        e.ticks_into(delta, next),
    ensures
        totals_kept(e.stats_of(), next.stats_of()),
{
    if e.phase_of() is Playing {
        let owed = crate::time::saturating_nanos_add(e.elapsed_of(), delta);
        let (p, rest, lock) = fall(e.field(), e.piece(), owed, e.interval());
        if lock {
            lemma_lock_keeps_totals(e, p, e.stats_of(), next);
        }
    }
}

/// A hard drop while playing locks exactly one piece.
pub proof fn law_hard_drop_places_one_piece<R: RuleSet>(e: Engine<R>, next: Engine<R>)
    requires
        e.wf(),
        scores_non_negative(e.rules_of()),
        e.phase_of() is Playing,
        e.applies(Action::HardDrop, next),
    ensures
        next.stats_of().pieces == crate::game::state::saturating_u32(e.stats_of().pieces as int, 1),
{
    let landed = e.field().landed_from(e.piece());
    lemma_landed_below(e.field(), e.piece());
    let distance = landed.origin.y - e.piece().origin.y;
    let stats = Stats {
        score: crate::game::state::saturating_u32(e.stats_of().score as int, e.rules_of().spec_scoring().hard_drop_score(distance as u32)),
        ..e.stats_of()
    };
    lemma_lock_keeps_totals(e, landed, stats, next);
}

/// Pausing and then unpausing gives back the game exactly as it was.
pub proof fn law_pause_round_trip<R: RuleSet>(e: Engine<R>, paused: Engine<R>, resumed: Engine<R>)
    requires
        !(e.phase_of() is Over),
        e.applies(Action::TogglePause, paused),
        paused.applies(Action::TogglePause, resumed),
    ensures
        resumed.same_state(e),
{
}

/// While the game is paused or over, time passing changes nothing.
pub proof fn law_time_stands_still_unless_playing<R: RuleSet>(e: Engine<R>, delta: int, next: Engine<R>)
    requires
        !(e.phase_of() is Playing),
        e.ticks_into(delta, next),
    ensures
        next.same_state(e),
{
}

/// Quitting is the loop's business: to the game it changes nothing.
pub proof fn law_quit_changes_nothing<R: RuleSet>(e: Engine<R>, next: Engine<R>)
    requires
        e.applies(Action::Quit, next),
    ensures
        next.same_state(e),
{
}

/// A restart empties the board, keeps its size, zeroes every total and owes
/// no time, with a fresh piece at its spawn point; play resumes unless that
/// piece cannot fit.
pub proof fn law_restart_starts_afresh<R: RuleSet>(e: Engine<R>, next: Engine<R>)
    requires
        e.applies(Action::Restart, next),
    ensures
        next.board_of().cols() == e.board_of().cols(),
        next.board_of().lines() == e.board_of().lines(),
        next.board_of().grid() == Seq::new(e.board_of().lines() as nat, |_r: int| blank_row(e.board_of().cols())),
        next.stats_of() == Stats::zero(),
        next.elapsed_of() == 0,
        at_spawn(next),
        next.phase_of() == (if next.field().fits(next.piece()) { Phase::Playing } else { Phase::Over }),
{
}

/// The ghost shows where a fitting piece comes to rest: in its column, no
/// higher than it is, fitting, with no room to fall one more row, and dropping
/// it again leaves it there.
pub proof fn law_ghost_rests(field: FieldView, p: ActivePiece)
    requires
        field.fits(p),
    ensures
        field.fits(field.landed_from(p)),
        field.landed_from(p).origin.x == p.origin.x,
        field.landed_from(p).origin.y >= p.origin.y,
        !(field.landed_from(p).origin.y < i16::MAX - 3 && field.fits(
            field.landed_from(p).moved(Offset { dx: 0, dy: 1 }),
        )),
        field.landed_from(field.landed_from(p)) == field.landed_from(p),
    decreases i16::MAX - p.origin.y,
{
    lemma_landed_below(field, p);
    let down = Offset { dx: 0, dy: 1 };
    if p.origin.y < i16::MAX - 3 && field.fits(p.moved(down)) {
        law_ghost_rests(field, p.moved(down));
    }
}

/// The board keeps its size whatever the player does.
pub proof fn law_apply_keeps_board_size<R: RuleSet>(e: Engine<R>, action: Action, next: Engine<R>)
    requires
        e.applies(action, next),
    ensures
        next.board_of().cols() == e.board_of().cols(),
        next.board_of().lines() == e.board_of().lines(),
{
    if e.phase_of() is Playing {
        match action {
            Action::SoftDrop => {
                if e.shift_dest(Offset { dx: 0, dy: 1 }) is None {
                    assert(e.locks_into(e.piece(), e.stats_of(), next));
                }
            },
            Action::HardDrop => {
                let landed = e.field().landed_from(e.piece());
                let distance = landed.origin.y - e.piece().origin.y;
                let stats = Stats {
                    score: crate::game::state::saturating_u32(e.stats_of().score as int, e.rules_of().spec_scoring().hard_drop_score(distance as u32)),
                    ..e.stats_of()
                };
                assert(e.locks_into(landed, stats, next));
            },
            _ => {},
        }
    }
}

/// The board keeps its size as time passes.
pub proof fn law_tick_keeps_board_size<R: RuleSet>(e: Engine<R>, delta: int, next: Engine<R>)
    requires
        e.ticks_into(delta, next),
    ensures
        next.board_of().cols() == e.board_of().cols(),
        next.board_of().lines() == e.board_of().lines(),
{
    if e.phase_of() is Playing {
        let owed = crate::time::saturating_nanos_add(e.elapsed_of(), delta);
        let (p, rest, lock) = fall(e.field(), e.piece(), owed, e.interval());
        if lock {
            assert(e.locks_into(p, e.stats_of(), next));
        }
    }
}

/// Writing `c` at a square that lies on the field leaves it holding `c`, and
/// any other square as it was.
proof fn lemma_put_reads(g: Seq<Seq<crate::board::Cell>>, width: int, height: int, at: crate::geometry::Point, c: crate::board::Cell, other: crate::geometry::Point)
    requires
        g.len() == height,
        forall|r: int| 0 <= r < height ==> #[trigger] g[r].len() == width,
        crate::board::grid::inside(width, height, other),
    ensures
        crate::board::grid::put(g, width, height, at, c).len() == height,
        forall|r: int| 0 <= r < height ==> #[trigger] crate::board::grid::put(g, width, height, at, c)[r].len() == width,
        crate::board::grid::put(g, width, height, at, c)[other.y as int][other.x as int] == (if other == at {
            c
        } else {
            g[other.y as int][other.x as int]
        }),
{
}

/// When a hard drop clears no row, every square the ghost showed ends up
/// filled with the dropped piece: the piece lands exactly where the ghost
/// promised.
pub proof fn law_hard_drop_fills_the_ghost<R: RuleSet>(e: Engine<R>, next: Engine<R>)
    requires
        e.wf(),
        e.board_of().wf(),
        e.phase_of() is Playing,
        e.field().fits(e.piece()),
        e.applies(Action::HardDrop, next),
        crate::board::grid::full_rows(
            crate::board::grid::locked(
                e.board_of().grid(),
                e.board_of().cols(),
                e.board_of().lines(),
                e.field().landed_from(e.piece()),
            ),
            e.board_of().lines(),
        ).len() == 0,
    ensures
        forall|k: int|
            0 <= k < 4 ==> {
                let at = #[trigger] e.field().landed_from(e.piece()).spec_cells()[k];
                &&& next.field().contains(at)
                &&& (next.field().contents)(at) == crate::board::Cell::Filled(e.piece().kind)
            },
{
    let f = e.field();
    let landing = f.landed_from(e.piece());
    law_ghost_rests(f, e.piece());
    lemma_landed_below(f, e.piece());
    let w = e.board_of().cols();
    let h = e.board_of().lines();
    let g = e.board_of().grid();
    let distance = landing.origin.y - e.piece().origin.y;
    let stats = Stats {
        score: crate::game::state::saturating_u32(e.stats_of().score as int, e.rules_of().spec_scoring().hard_drop_score(distance as u32)),
        ..e.stats_of()
    };
    assert(e.locks_into(landing, stats, next));
    let c = landing.spec_cells();
    let v = crate::board::Cell::Filled(landing.kind);
    let g1 = crate::board::grid::put(g, w, h, c[0], v);
    let g2 = crate::board::grid::put(g1, w, h, c[1], v);
    let g3 = crate::board::grid::put(g2, w, h, c[2], v);
    let g4 = crate::board::grid::put(g3, w, h, c[3], v);
    assert(g4 == crate::board::grid::locked(g, w, h, landing));
    assert forall|k: int| 0 <= k < 4 implies g4[#[trigger] c[k].y as int][c[k].x as int] == v by {
        assert(f.free_at(c[k]));
        lemma_put_reads(g, w, h, c[0], v, c[k]);
        lemma_put_reads(g1, w, h, c[1], v, c[k]);
        lemma_put_reads(g2, w, h, c[2], v, c[k]);
        lemma_put_reads(g3, w, h, c[3], v, c[k]);
    }
    crate::board::grid::lemma_no_full_rows_keeps_grid(g4, h);
    assert(g4.len() == h) by {
        lemma_put_reads(g, w, h, c[0], v, c[0]);
        assert(f.free_at(c[0]));
        lemma_put_reads(g1, w, h, c[1], v, c[0]);
        lemma_put_reads(g2, w, h, c[2], v, c[0]);
        lemma_put_reads(g3, w, h, c[3], v, c[0]);
    }
    assert(crate::board::grid::collapsed(g4, w) =~= g4);
    assert forall|k: int| 0 <= k < 4 implies {
        let at = #[trigger] e.field().landed_from(e.piece()).spec_cells()[k];
        &&& next.field().contains(at)
        &&& (next.field().contents)(at) == crate::board::Cell::Filled(e.piece().kind)
    } by {
        assert(f.free_at(c[k]));
        assert(g4[c[k].y as int][c[k].x as int] == v);
    }
}

/// A hard drop adds the piece's four squares to the stack, less a whole
/// row's worth for every row it completes.
pub proof fn law_hard_drop_adds_four_squares<R: RuleSet>(e: Engine<R>, next: Engine<R>)
    requires
        e.wf(),
        e.board_of().wf(),
        e.phase_of() is Playing,
        e.field().fits(e.piece()),
        e.applies(Action::HardDrop, next),
    ensures
        crate::board::count::grid_filled(next.board_of().grid()) + e.board_of().cols() * crate::board::grid::full_rows(
            crate::board::grid::locked(
                e.board_of().grid(),
                e.board_of().cols(),
                e.board_of().lines(),
                e.field().landed_from(e.piece()),
            ),
            e.board_of().lines(),
        ).len() == crate::board::count::grid_filled(e.board_of().grid()) + 4,
{
    let f = e.field();
    let landing = f.landed_from(e.piece());
    law_ghost_rests(f, e.piece());
    let w = e.board_of().cols();
    let h = e.board_of().lines();
    let g = e.board_of().grid();
    let distance = landing.origin.y - e.piece().origin.y;
    let stats = Stats {
        score: crate::game::state::saturating_u32(e.stats_of().score as int, e.rules_of().spec_scoring().hard_drop_score(distance as u32)),
        ..e.stats_of()
    };
    assert(e.locks_into(landing, stats, next));
    crate::board::count::law_lock_adds_four_squares(g, w, h, landing);
    let stacked = crate::board::grid::locked(g, w, h, landing);
    crate::board::count::law_clearing_removes_whole_rows(stacked, w);
}

/// On an empty board at least four squares wide and four tall, a freshly
/// spawned piece always fits.
pub proof fn lemma_spawn_fits_empty_board(width: int, height: int, kind: crate::piece::Tetromino)
    requires
        4 <= width <= i16::MAX,
        4 <= height <= i16::MAX,
    ensures
        crate::board::grid::grid_field(
            width,
            height,
            Seq::new(height as nat, |_r: int| blank_row(width)),
        ).fits(ActivePiece { kind, origin: spawn_point(width, kind), rotation: Rotation::Spawn }),
{
    let p = ActivePiece { kind, origin: spawn_point(width, kind), rotation: Rotation::Spawn };
    let f = crate::board::grid::grid_field(width, height, Seq::new(height as nat, |_r: int| blank_row(width)));
    crate::game::engine::lemma_spawn_placeable(width, kind);
    p.lemma_cells_in_box();
    assert forall|i: int| 0 <= i < 4 implies f.free_at(#[trigger] p.spec_cells()[i]) by {
        let o = kind.footprint(Rotation::Spawn)[i];
        assert(p.spec_cells()[i] == p.origin.plus(o));
    }
}

/// Restarting a game on a board at least four squares wide and four tall
/// always leads back into play.
pub proof fn law_restart_resumes_play<R: RuleSet>(e: Engine<R>, next: Engine<R>)
    requires
        4 <= e.board_of().cols() <= i16::MAX,
        4 <= e.board_of().lines() <= i16::MAX,
        e.applies(Action::Restart, next),
    ensures
        next.phase_of() == Phase::Playing,
{
    lemma_spawn_fits_empty_board(e.board_of().cols(), e.board_of().lines(), next.piece().kind);
}

/// The piece a game spawns is the first one its preview showed.
pub proof fn law_spawn_takes_the_first_previewed<R: RuleSet>(
    e: Engine<R>,
    grid: Seq<Seq<crate::board::Cell>>,
    stats: Stats,
    phase: Phase,
    next: Engine<R>,
)
    requires
        e.wf(),
        e.spawns_into(grid, stats, phase, next),
        e.rules_of().spec_randomizer().queued().len() > 0,
    ensures
        next.piece().kind == e.rules_of().spec_randomizer().queued()[0],
{
}

/// After a hard drop, the falling piece is the one the preview showed first.
pub proof fn law_hard_drop_brings_the_first_previewed<R: RuleSet>(e: Engine<R>, next: Engine<R>)
    requires
        e.wf(),
        e.phase_of() is Playing,
        e.applies(Action::HardDrop, next),
        e.rules_of().spec_randomizer().queued().len() > 0,
    ensures
        next.piece().kind == e.rules_of().spec_randomizer().queued()[0],
{
    let landing = e.field().landed_from(e.piece());
    let distance = landing.origin.y - e.piece().origin.y;
    let stats = Stats {
        score: crate::game::state::saturating_u32(e.stats_of().score as int, e.rules_of().spec_scoring().hard_drop_score(distance as u32)),
        ..e.stats_of()
    };
    assert(e.locks_into(landing, stats, next));
}

/// A restart continues the piece sequence: the new falling piece is the one
/// the preview showed first.
pub proof fn law_restart_brings_the_first_previewed<R: RuleSet>(e: Engine<R>, next: Engine<R>)
    requires
        e.wf(),
        e.applies(Action::Restart, next),
        e.rules_of().spec_randomizer().queued().len() > 0,
    ensures
        next.piece().kind == e.rules_of().spec_randomizer().queued()[0],
{
}

/// Under the standard rules, a hard drop moves the preview up by one: the new
/// falling piece is the first one previewed, and the pieces previewed after
/// it come next, in the same order.
pub proof fn law_hard_drop_moves_the_preview_up<G: crate::rules::rng::Rng>(
    e: Engine<crate::rules::ruleset::StandardRules<G>>,
    next: Engine<crate::rules::ruleset::StandardRules<G>>,
)
    requires
        e.wf(),
        e.rules_of().spec_randomizer().wf(),
        e.phase_of() is Playing,
        e.applies(Action::HardDrop, next),
    ensures
        next.piece().kind == e.rules_of().spec_randomizer().queued()[0],
        next.rules_of().spec_randomizer().queued().subrange(
            0,
            e.rules_of().spec_randomizer().queued().len() - 1,
        ) == e.rules_of().spec_randomizer().queued().drop_first(),
{
    law_hard_drop_brings_the_first_previewed(e, next);
    let q = e.rules_of().spec_randomizer().queued();
    let after = next.rules_of().spec_randomizer().queued();
    assert(after.subrange(0, q.len() - 1) =~= q.drop_first());
}

/// Under the standard rules, a turn that fits neither in place nor one column
/// to either side, but fits one row higher, lifts the piece straight up: it
/// keeps its column, rises one row and takes the new orientation.
pub proof fn law_blocked_turn_lifts_straight_up<G: crate::rules::rng::Rng>(
    e: Engine<crate::rules::ruleset::StandardRules<G>>,
    spin: crate::geometry::Spin,
    next: Engine<crate::rules::ruleset::StandardRules<G>>,
)
    requires
        e.wf(),
        e.phase_of() is Playing,
        !e.field().fits(e.piece().turned_by(spin)),
        !e.field().fits(e.piece().turned_by(spin).moved(Offset { dx: -1i16, dy: 0 })),
        !e.field().fits(e.piece().turned_by(spin).moved(Offset { dx: 1, dy: 0 })),
        e.field().fits(e.piece().turned_by(spin).moved(Offset { dx: 0, dy: -1i16 })),
        e.applies(Action::Rotate(spin), next),
    ensures
        next.piece().kind == e.piece().kind,
        next.piece().rotation == spin.spec_apply(e.piece().rotation),
        next.piece().origin.x == e.piece().origin.x,
        next.piece().origin.y == e.piece().origin.y - 1,
{
    let t = e.piece().turned_by(spin);
    let kicks = e.rules_of().spec_kicks().spec_candidates();
    crate::rules::kick::law_simple_kicks_in_order();
    assert(t.moved(kicks[0]) == t);
    assert(kick_dest(e.field(), t, kicks, 0) == kick_dest(e.field(), t, kicks, 1));
    assert(kick_dest(e.field(), t, kicks, 1) == kick_dest(e.field(), t, kicks, 2));
    assert(kick_dest(e.field(), t, kicks, 2) == kick_dest(e.field(), t, kicks, 3));
    assert(t.origin.can_shift(kicks[3]));
    assert(kick_dest(e.field(), t, kicks, 3) == Some(t.moved(kicks[3])));
}

/// Every lock pays its clear at the level the totals held before the lock,
/// and adds the rows it cleared to the line total.
pub proof fn law_lock_pays_at_the_level_before<R: RuleSet>(e: Engine<R>, piece: ActivePiece, stats: Stats, next: Engine<R>)
    requires
        e.locks_into(piece, stats, next),
    ensures
        exists|rows: int|
            0 <= rows && next.stats_of().lines == crate::game::state::saturating_u32(stats.lines as int, rows)
                && next.stats_of().score == crate::game::state::saturating_u32(
                stats.score as int,
                #[trigger] crate::game::engine::clear_pay(e.rules_of().spec_scoring(), rows, stats.level),
            ),
{
    let w = e.board_of().cols();
    let h = e.board_of().lines();
    let stacked = crate::board::grid::locked(e.board_of().grid(), w, h, piece);
    let rows = crate::board::grid::full_rows(stacked, h).len() as int;
    crate::game::engine::law_clear_paid_at_the_level_before(
        stats,
        rows,
        e.rules_of().spec_scoring(),
        e.rules_of().spec_level(),
    );
    assert(next.stats_of().score == crate::game::state::saturating_u32(
        stats.score as int,
        crate::game::engine::clear_pay(e.rules_of().spec_scoring(), rows, stats.level),
    ));
}

/// A hard drop pays for the rows fallen, then for any clear at the level the
/// game was at before the drop, never at the level the clear reaches.
pub proof fn law_hard_drop_pays_the_clear_at_the_level_before<R: RuleSet>(e: Engine<R>, next: Engine<R>)
    requires
        e.phase_of() is Playing,
        e.applies(Action::HardDrop, next),
    ensures
        exists|rows: int|
            0 <= rows && next.stats_of().lines == crate::game::state::saturating_u32(e.stats_of().lines as int, rows)
                && next.stats_of().score == crate::game::state::saturating_u32(
                crate::game::state::saturating_u32(
                    e.stats_of().score as int,
                    e.rules_of().spec_scoring().hard_drop_score(
                        (e.field().landed_from(e.piece()).origin.y - e.piece().origin.y) as u32,
                    ),
                ) as int,
                #[trigger] crate::game::engine::clear_pay(e.rules_of().spec_scoring(), rows, e.stats_of().level),
            ),
{
    let landed = e.field().landed_from(e.piece());
    let distance = landed.origin.y - e.piece().origin.y;
    let stats = Stats {
        score: crate::game::state::saturating_u32(
            e.stats_of().score as int,
            e.rules_of().spec_scoring().hard_drop_score(distance as u32),
        ),
        ..e.stats_of()
    };
    assert(e.locks_into(landed, stats, next));
    law_lock_pays_at_the_level_before(e, landed, stats, next);
}

/// Whether `next` keeps the rules of `e`, or the rules after one piece was
/// drawn from them.
pub open spec fn rules_kept_or_drawn<R: RuleSet>(e: Engine<R>, next: Engine<R>) -> bool {
    ||| next.rules_of() == e.rules_of()
    ||| e.rules_of().spec_randomizer().drawn_into(next.rules_of().spec_randomizer())
}

/// A move either leaves the rules alone or draws one piece from them.
proof fn lemma_apply_draws_at_most_once<R: RuleSet>(e: Engine<R>, action: Action, next: Engine<R>)
    requires
        e.applies(action, next),
    ensures
        rules_kept_or_drawn(e, next),
{
    if e.phase_of() is Playing {
        match action {
            Action::SoftDrop => {
                if e.shift_dest(Offset { dx: 0, dy: 1 }) is None {
                    assert(e.locks_into(e.piece(), e.stats_of(), next));
                }
            },
            Action::HardDrop => {
                let landed = e.field().landed_from(e.piece());
                let distance = landed.origin.y - e.piece().origin.y;
                let stats = Stats {
                    score: crate::game::state::saturating_u32(e.stats_of().score as int, e.rules_of().spec_scoring().hard_drop_score(distance as u32)),
                    ..e.stats_of()
                };
                assert(e.locks_into(landed, stats, next));
            },
            _ => {},
        }
    }
}

/// Time passing either leaves the rules alone or draws one piece from them.
proof fn lemma_tick_draws_at_most_once<R: RuleSet>(e: Engine<R>, delta: int, next: Engine<R>)
    requires
        e.ticks_into(delta, next),
    ensures
        rules_kept_or_drawn(e, next),
{
    if e.phase_of() is Playing {
        let owed = crate::time::saturating_nanos_add(e.elapsed_of(), delta);
        let (p, rest, lock) = fall(e.field(), e.piece(), owed, e.interval());
        if lock {
            assert(e.locks_into(p, e.stats_of(), next));
        }
    }
}

/// Under the standard rules the bag stays consistent through every move and
/// every tick, so more than the five pieces the preview shows, six at least,
/// are always queued.
pub proof fn law_standard_queue_stays_full<G: crate::rules::rng::Rng>(
    e: Engine<crate::rules::ruleset::StandardRules<G>>,
    action: Option<Action>,
    delta: int,
    next: Engine<crate::rules::ruleset::StandardRules<G>>,
)
    requires
        e.rules_of().spec_randomizer().wf(),
        match action {
            Some(a) => e.applies(a, next),
            None => e.ticks_into(delta, next),
        },
    ensures
        next.rules_of().spec_randomizer().wf(),
        next.rules_of().spec_randomizer().queued().len() >= 6,
{
    match action {
        Some(a) => lemma_apply_draws_at_most_once(e, a, next),
        None => lemma_tick_draws_at_most_once(e, delta, next),
    }
    if next.rules_of() != e.rules_of() {
        crate::rules::randomizer::law_draw_keeps_the_bag_consistent(
            e.rules_of().spec_randomizer(),
            next.rules_of().spec_randomizer(),
        );
    }
}

/// Whether passing `delta` nanoseconds to `e` locks its falling piece.
pub open spec fn tick_locks<R: RuleSet>(e: Engine<R>, delta: int) -> bool {
    &&& e.phase_of() is Playing
    &&& fall(e.field(), e.piece(), crate::time::saturating_nanos_add(e.elapsed_of(), delta), e.interval()).2
}

/// Gravity that does not lock over `a` nanoseconds, followed by `b` more, falls
/// as gravity over `a + b` at once; and it never owes more than it was given.
proof fn lemma_fall_splits(field: FieldView, piece: ActivePiece, a: int, b: int, interval: int)
    requires
        a >= 0,
        b >= 0,
        !fall(field, piece, a, interval).2,
    ensures
        0 <= fall(field, piece, a, interval).1 <= a,
        fall(field, piece, a + b, interval) == fall(
            field,
            fall(field, piece, a, interval).0,
            fall(field, piece, a, interval).1 + b,
            interval,
        ),
    decreases a,
{
    let down = Offset { dx: 0, dy: 1 };
    if interval <= 0 || a < interval {
    } else if piece.origin.can_shift(down) && field.fits(piece.moved(down)) {
        lemma_fall_splits(field, piece.moved(down), a - interval, b, interval);
        assert(a + b - interval == (a - interval) + b);
    }
}

/// Two ticks act as one tick of their sum, as long as the first does not lock
/// the piece and the time owed stays below the largest duration.
pub proof fn law_two_ticks_act_as_one<R: RuleSet>(e: Engine<R>, d1: int, d2: int, mid: Engine<R>, next: Engine<R>)
    requires
        d1 >= 0,
        d2 >= 0,
        e.elapsed_of() + d1 + d2 <= crate::time::MAX_NANOS,
        !tick_locks(e, d1),
        e.ticks_into(d1, mid),
        mid.ticks_into(d2, next),
    ensures
        e.ticks_into(d1 + d2, next),
{
    if e.phase_of() is Playing {
        let owed = e.elapsed_of() + d1;
        e.lemma_elapsed_non_negative();
        lemma_fall_splits(e.field(), e.piece(), owed, d2, e.interval());
        assert(mid.field() == e.field());
        assert(mid.interval() == e.interval());
        assert(owed + d2 == e.elapsed_of() + (d1 + d2));
    }
}

/// The sum of `deltas`.
pub open spec fn total_of(deltas: Seq<int>) -> int
    decreases deltas.len(),
{
    if deltas.len() == 0 {
        0
    } else {
        deltas[0] + total_of(deltas.drop_first())
    }
}

/// Whether each game of `games` is the one before it after the matching tick
/// of `deltas`.
pub open spec fn ticked_in_turn<R: RuleSet>(games: Seq<Engine<R>>, deltas: Seq<int>) -> bool {
    &&& games.len() == deltas.len() + 1
    &&& forall|i: int| 0 <= i < deltas.len() ==> #[trigger] games[i].ticks_into(deltas[i], games[i + 1])
}

/// A tick that does not lock the piece owes at most what was owed before and
/// the time it was given.
proof fn lemma_tick_owes_no_more<R: RuleSet>(e: Engine<R>, delta: int, next: Engine<R>)
    requires
        delta >= 0,
        e.elapsed_of() + delta <= crate::time::MAX_NANOS,
        !tick_locks(e, delta),
        e.ticks_into(delta, next),
    ensures
        next.elapsed_of() <= e.elapsed_of() + delta,
{
    e.lemma_elapsed_non_negative();
    if e.phase_of() is Playing {
        lemma_fall_splits(e.field(), e.piece(), e.elapsed_of() + delta, 0, e.interval());
    }
}

/// A sum of amounts none of which is negative is not negative.
proof fn lemma_total_non_negative(deltas: Seq<int>)
    requires
        forall|i: int| 0 <= i < deltas.len() ==> #[trigger] deltas[i] >= 0,
    ensures
        total_of(deltas) >= 0,
    decreases deltas.len(),
{
    if deltas.len() > 0 {
        let rest = deltas.drop_first();
        assert forall|i: int| 0 <= i < rest.len() implies #[trigger] rest[i] >= 0 by {
            assert(deltas[i + 1] >= 0);
        }
        lemma_total_non_negative(rest);
        assert(deltas[0] >= 0);
    }
}

/// Any number of ticks act as one tick of their sum, as long as none but the
/// last locks the piece and the time owed stays below the largest duration.
pub proof fn law_ticks_act_as_one<R: RuleSet>(games: Seq<Engine<R>>, deltas: Seq<int>)
    requires
        ticked_in_turn(games, deltas),
        deltas.len() > 0,
        forall|i: int| 0 <= i < deltas.len() ==> #[trigger] deltas[i] >= 0,
        games[0].elapsed_of() + total_of(deltas) <= crate::time::MAX_NANOS,
        forall|i: int| 0 <= i < deltas.len() - 1 ==> !#[trigger] tick_locks(games[i], deltas[i]),
    ensures
        total_of(deltas) >= 0,
        games[0].ticks_into(total_of(deltas), games.last()),
    decreases deltas.len(),
{
    let first: int = 0;
    assert(games[first].ticks_into(deltas[first], games[first + 1]));
    lemma_total_non_negative(deltas);
    if deltas.len() == 1 {
        assert(total_of(deltas.drop_first()) == 0);
    } else {
        let rest_games = games.drop_first();
        let rest = deltas.drop_first();
        assert forall|i: int| 0 <= i < rest.len() implies #[trigger] rest_games[i].ticks_into(rest[i], rest_games[i + 1]) by {
            assert(games[i + 1].ticks_into(deltas[i + 1], games[i + 1 + 1]));
        }
        assert forall|i: int| 0 <= i < rest.len() implies #[trigger] rest[i] >= 0 by {
            assert(deltas[i + 1] >= 0);
        }
        assert forall|i: int| 0 <= i < rest.len() - 1 implies !#[trigger] tick_locks(rest_games[i], rest[i]) by {
            assert(!tick_locks(games[i + 1], deltas[i + 1]));
        }
        assert(!tick_locks(games[first], deltas[first]));
        assert(deltas[first] >= 0);
        lemma_total_non_negative(rest);
        lemma_tick_owes_no_more(games[0], deltas[0], games[1]);
        law_ticks_act_as_one(rest_games, rest);
        assert(rest_games.last() == games.last());
        law_two_ticks_act_as_one(games[0], deltas[0], total_of(rest), games[1], games.last());
    }
}

} // verus!

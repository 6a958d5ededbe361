//! Fixtures shared by the tests and by any consumer writing its own
//! [`crate::render::View`].

use vstd::prelude::*;
use crate::board::grid::{blank_row, down, grid_field};
use crate::board::Board;
use crate::game::engine::{lemma_landed_below, spawn_point};
use crate::game::{Engine, Phase, Snapshot, Stats};
use crate::geometry::Rotation;
use crate::piece::{ActivePiece, Tetromino};
use crate::rules::randomizer::{fresh_bag, lemma_fresh_bag_is_bag};
use crate::rules::{RuleSet, StandardRules, XorShift64};
use crate::rules::Randomizer;

verus! {

/// The first bag of pieces shuffled by a generator seeded with `seed`.
pub open spec fn first_bag(seed: u64) -> Seq<Tetromino> {
    fresh_bag(XorShift64::new_spec(seed)).0
}

/// The first piece of a game seeded with `seed`, at its spawn point on a
/// standard board.
pub open spec fn first_piece(seed: u64) -> ActivePiece {
    ActivePiece {
        kind: first_bag(seed)[0],
        origin: spawn_point(10, first_bag(seed)[0]),
        rotation: Rotation::Spawn,
    }
}

/// The empty grid of a standard board.
pub open spec fn blank_standard_grid() -> Seq<Seq<crate::board::Cell>> {
    Seq::new(20, |_r: int| blank_row(10))
}

/// A standard game with a reproducible piece sequence, just started: its
/// first piece and the pieces queued behind it are the generator's first bag.
pub fn seeded_game(seed: u64) -> (e: Engine<StandardRules<XorShift64>>)
    ensures
        e.wf(),
        e.board_of().cols() == 10,
        e.board_of().lines() == 20,
        e.board_of().grid() == blank_standard_grid(),
        e.stats_of() == Stats::zero(),
        e.phase_of() == Phase::Playing,
        e.piece() == first_piece(seed),
        e.rules_of().spec_randomizer().queued() == first_bag(seed).drop_first(),
        e.rules_of().standard_curves(),
{
    let e = Engine::new(Board::standard(), StandardRules::seeded(seed));
    proof {
        lemma_fresh_bag_is_bag(XorShift64::new_spec(seed));
        assert(first_bag(seed).drop_first().len() == 6);
    }
    e
}

/// A snapshot of a freshly started, reproducible game: the one that
/// `seeded_game(2026)` shows.
pub fn sample_snapshot() -> (shot: Snapshot)
    ensures
        shot.board.cols() == 10,
        shot.board.lines() == 20,
        shot.board.grid() == blank_standard_grid(),
        shot.stats == Stats::zero(),
        shot.phase == Phase::Playing,
        shot.current == first_piece(2026),
        shot.next@ == first_bag(2026).subrange(1, 6),
        shot.ghost_piece == grid_field(10, 20, blank_standard_grid()).landed_from(shot.current),
        shot.ghost_piece.origin != shot.current.origin,
{
    let e = seeded_game(2026);
    let shot = e.snapshot();
    proof {
        lemma_fresh_bag_is_bag(XorShift64::new_spec(2026));
        let q = first_bag(2026).drop_first();
        assert(q.take(5) =~= first_bag(2026).subrange(1, 6));
        let f = grid_field(10, 20, blank_standard_grid());
        let p = shot.current;
        let m = p.moved(down());
        assert(e.field() == f);
        assert(f.fits(p));
        p.lemma_cells_in_box();
        m.lemma_cells_in_box();
        assert forall|i: int| 0 <= i < 4 implies f.free_at(#[trigger] m.spec_cells()[i]) by {
            assert(f.free_at(p.spec_cells()[i]));
        }
        assert(f.fits(m));
        lemma_landed_below(f, m);
    }
    shot
}

} // verus!

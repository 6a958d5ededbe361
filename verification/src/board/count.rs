//! How many squares of a grid are occupied, and how locking changes that.

use vstd::prelude::*;
use crate::board::cell::Cell;
use crate::board::grid::{blank_row, collapsed, full_rows, grid_field, inside, kept_rows, locked, put, row_is_full};
use crate::geometry::Point;
use crate::piece::ActivePiece;

verus! {

/// One for an occupied square, nothing for an empty one.
pub open spec fn occupancy(c: Cell) -> nat {
    if c is Filled {
        1
    } else {
        0
    }
}

/// The number of occupied squares in `row`.
pub open spec fn row_filled(row: Seq<Cell>) -> nat
    decreases row.len(),
{
    if row.len() == 0 {
        0
    } else {
        row_filled(row.drop_last()) + occupancy(row.last())
    }
}

/// The number of occupied squares in `g`.
pub open spec fn grid_filled(g: Seq<Seq<Cell>>) -> nat
    decreases g.len(),
{
    if g.len() == 0 {
        0
    } else {
        grid_filled(g.drop_last()) + row_filled(g.last())
    }
}

/// Replacing one square of a row changes its count by what left and what
/// came.
pub proof fn lemma_row_update(row: Seq<Cell>, x: int, c: Cell)
    requires
        0 <= x < row.len(),
    ensures
        row_filled(row.update(x, c)) + occupancy(row[x]) == row_filled(row) + occupancy(c),
    decreases row.len(),
{
    let u = row.update(x, c);
    if x == row.len() - 1 {
        assert(u.drop_last() =~= row.drop_last());
    } else {
        lemma_row_update(row.drop_last(), x, c);
        assert(u.drop_last() =~= row.drop_last().update(x, c));
    }
}

/// Replacing one row of a grid changes its count by what left and what came.
pub proof fn lemma_grid_update(g: Seq<Seq<Cell>>, y: int, row: Seq<Cell>)
    requires
        0 <= y < g.len(),
    ensures
        grid_filled(g.update(y, row)) + row_filled(g[y]) == grid_filled(g) + row_filled(row),
    decreases g.len(),
{
    let u = g.update(y, row);
    if y == g.len() - 1 {
        assert(u.drop_last() =~= g.drop_last());
    } else {
        lemma_grid_update(g.drop_last(), y, row);
        assert(u.drop_last() =~= g.drop_last().update(y, row));
    }
}

/// Filling an empty square of the field adds one occupied square, and keeps
/// the grid's shape.
pub proof fn lemma_put_fills_one(g: Seq<Seq<Cell>>, width: int, height: int, at: Point, c: Cell)
    requires
        g.len() == height,
        forall|r: int| 0 <= r < height ==> #[trigger] g[r].len() == width,
        inside(width, height, at),
        g[at.y as int][at.x as int] is Empty,
        c is Filled,
    ensures
        grid_filled(put(g, width, height, at, c)) == grid_filled(g) + 1,
        put(g, width, height, at, c).len() == height,
        forall|r: int| 0 <= r < height ==> #[trigger] put(g, width, height, at, c)[r].len() == width,
{
    let row = g[at.y as int];
    lemma_row_update(row, at.x as int, c);
    lemma_grid_update(g, at.y as int, row.update(at.x as int, c));
}

/// Locking a piece that fits fills exactly four squares that were empty: the
/// stack gains four occupied squares.
pub proof fn law_lock_adds_four_squares(g: Seq<Seq<Cell>>, width: int, height: int, piece: ActivePiece)
    requires
        g.len() == height,
        forall|r: int| 0 <= r < height ==> #[trigger] g[r].len() == width,
        grid_field(width, height, g).fits(piece),
    ensures
        grid_filled(locked(g, width, height, piece)) == grid_filled(g) + 4,
        locked(g, width, height, piece).len() == height,
        forall|r: int| 0 <= r < height ==> #[trigger] locked(g, width, height, piece)[r].len() == width,
{
    let f = grid_field(width, height, g);
    let c = piece.spec_cells();
    let k = Cell::Filled(piece.kind);
    piece.kind.lemma_footprint_well_formed(piece.rotation);
    piece.lemma_cells_in_box();
    let o = piece.kind.footprint(piece.rotation);
    assert forall|i: int, j: int| 0 <= i < j < 4 implies c[i] != c[j] by {
        assert(o[i] != o[j]);
        assert(c[i] == piece.origin.plus(o[i]));
        assert(c[j] == piece.origin.plus(o[j]));
    }
    assert(f.free_at(c[0]));
    assert(f.free_at(c[1]));
    assert(f.free_at(c[2]));
    assert(f.free_at(c[3]));
    let g1 = put(g, width, height, c[0], k);
    lemma_put_fills_one(g, width, height, c[0], k);
    let g2 = put(g1, width, height, c[1], k);
    assert(g1[c[1].y as int][c[1].x as int] is Empty);
    lemma_put_fills_one(g1, width, height, c[1], k);
    let g3 = put(g2, width, height, c[2], k);
    assert(g2[c[2].y as int][c[2].x as int] is Empty);
    lemma_put_fills_one(g2, width, height, c[2], k);
    assert(g3[c[3].y as int][c[3].x as int] is Empty);
    lemma_put_fills_one(g3, width, height, c[3], k);
}

/// Counts add up over two grids laid one above the other.
pub proof fn lemma_grid_concat(a: Seq<Seq<Cell>>, b: Seq<Seq<Cell>>)
    ensures
        grid_filled(a + b) == grid_filled(a) + grid_filled(b),
    decreases b.len(),
{
    if b.len() > 0 {
        lemma_grid_concat(a, b.drop_last());
        assert((a + b).drop_last() =~= a + b.drop_last());
        assert((a + b).last() == b.last());
    } else {
        assert(a + b =~= a);
    }
}

/// A full row of `width` squares has `width` occupied squares, and a blank
/// one none.
pub proof fn lemma_row_extremes(row: Seq<Cell>)
    ensures
        row_is_full(row) ==> row_filled(row) == row.len(),
        (forall|x: int| 0 <= x < row.len() ==> #[trigger] row[x] is Empty) ==> row_filled(row) == 0,
    decreases row.len(),
{
    if row.len() > 0 {
        lemma_row_extremes(row.drop_last());
        if row_is_full(row) {
            assert(row_is_full(row.drop_last()));
        }
    }
}

/// Rows that are all blank hold nothing.
pub proof fn lemma_blank_rows_empty(n: nat, width: int)
    ensures
        grid_filled(Seq::new(n, |_i: int| blank_row(width))) == 0,
    decreases n,
{
    if n > 0 {
        lemma_blank_rows_empty((n - 1) as nat, width);
        assert(Seq::new(n, |_i: int| blank_row(width)).drop_last() =~= Seq::new((n - 1) as nat, |_i: int| blank_row(width)));
        lemma_row_extremes(blank_row(width));
    }
}

/// The first `n` rows hold what the rows kept among them hold, plus a whole
/// row's worth for each full one.
pub proof fn lemma_kept_and_full(g: Seq<Seq<Cell>>, width: int, n: int)
    requires
        0 <= n <= g.len(),
        forall|r: int| 0 <= r < g.len() ==> #[trigger] g[r].len() == width,
    ensures
        grid_filled(g.subrange(0, n)) == grid_filled(kept_rows(g, n)) + width * full_rows(g, n).len(),
    decreases n,
{
    if n > 0 {
        lemma_kept_and_full(g, width, n - 1);
        assert(g.subrange(0, n).drop_last() =~= g.subrange(0, n - 1));
        lemma_row_extremes(g[n - 1]);
        if !row_is_full(g[n - 1]) {
            assert(kept_rows(g, n).drop_last() =~= kept_rows(g, n - 1));
        }
        assert(width * (full_rows(g, n - 1).len() + 1) == width * full_rows(g, n - 1).len() + width)
            by (nonlinear_arith);
    } else {
        assert(g.subrange(0, n) =~= Seq::<Seq<Cell>>::empty());
    }
}

/// Clearing full rows removes exactly a row's worth of occupied squares for
/// each of them, and moves nothing else in or out.
pub proof fn law_clearing_removes_whole_rows(g: Seq<Seq<Cell>>, width: int)
    requires
        forall|r: int| 0 <= r < g.len() ==> #[trigger] g[r].len() == width,
    ensures
        grid_filled(collapsed(g, width)) + width * full_rows(g, g.len() as int).len() == grid_filled(g),
{
    let n = g.len() as int;
    lemma_kept_and_full(g, width, n);
    assert(g.subrange(0, n) =~= g);
    lemma_grid_concat(Seq::new(full_rows(g, n).len(), |_i: int| blank_row(width)), kept_rows(g, n));
    lemma_blank_rows_empty(full_rows(g, n).len(), width);
}

} // verus!

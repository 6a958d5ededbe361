//! The [`Playfield`] trait and the [`Board`] that implements it.

use vstd::prelude::*;
use crate::board::cell::Cell;
use crate::geometry::{Offset, Point};
use crate::piece::ActivePiece;

verus! {

/// One cell downward, as a spec value.
pub open spec fn down() -> Offset {
    Offset { dx: 0, dy: 1 }
}

/// Whether `at` lies inside a field of `width` by `height`.
pub open spec fn inside(width: int, height: int, at: Point) -> bool {
    0 <= at.x < width && 0 <= at.y < height
}

/// The abstract contents of a playfield: its dimensions and what each square
/// holds.
pub struct FieldView {
    /// Number of columns.
    pub width: int,
    /// Number of rows.
    pub height: int,
    /// The contents of each in-bounds square.
    pub contents: spec_fn(Point) -> Cell,
}

impl FieldView {
    /// Whether `at` lies inside the field.
    pub open spec fn contains(self, at: Point) -> bool {
        inside(self.width, self.height, at)
    }

    /// Whether `at` is an unoccupied square of the field.
    pub open spec fn free_at(self, at: Point) -> bool {
        self.contains(at) && (self.contents)(at) is Empty
    }

    /// Whether `piece` may occupy its position: its cells can be computed and
    /// each of them is a free square.
    pub open spec fn fits(self, piece: ActivePiece) -> bool {
        &&& piece.placeable()
        &&& forall|i: int| 0 <= i < 4 ==> self.free_at(#[trigger] piece.spec_cells()[i])
    }

    /// Where `piece` comes to rest when dropped straight down: it keeps moving
    /// one row down for as long as the next row fits.
    pub open spec fn landed_from(self, piece: ActivePiece) -> ActivePiece
        decreases i16::MAX - piece.origin.y,
    {
        if piece.origin.y < i16::MAX - 3 && self.fits(piece.moved(down())) {
            self.landed_from(piece.moved(down()))
        } else {
            piece
        }
    }
}

/// `piece` moved `rows` rows straight down.
pub open spec fn dropped_by(piece: ActivePiece, rows: int) -> ActivePiece {
    ActivePiece { origin: Point { x: piece.origin.x, y: (piece.origin.y + rows) as i16 }, ..piece }
}

/// Dropping goes exactly as deep as the piece fits: the landing spot is the
/// piece moved straight down, it fits at every row on the way, it cannot go
/// one row further, and dropping it again leaves it where it is.
pub proof fn law_landing_is_the_deepest_fit(field: FieldView, piece: ActivePiece)
    requires
        field.fits(piece),
    ensures
        field.landed_from(piece).origin.y >= piece.origin.y,
        field.landed_from(piece) == dropped_by(piece, field.landed_from(piece).origin.y - piece.origin.y),
        forall|j: int|
            0 <= j <= field.landed_from(piece).origin.y - piece.origin.y ==> field.fits(#[trigger] dropped_by(piece, j)),
        !(field.landed_from(piece).origin.y < i16::MAX - 3 && field.fits(field.landed_from(piece).moved(down()))),
        field.landed_from(field.landed_from(piece)) == field.landed_from(piece),
    decreases i16::MAX - piece.origin.y,
{
    assert(dropped_by(piece, 0) == piece);
    if piece.origin.y < i16::MAX - 3 && field.fits(piece.moved(down())) {
        let m = piece.moved(down());
        law_landing_is_the_deepest_fit(field, m);
        let l = field.landed_from(m);
        assert(m == dropped_by(piece, 1));
        assert forall|j: int| 0 <= j <= l.origin.y - piece.origin.y implies field.fits(#[trigger] dropped_by(piece, j)) by {
            if j > 0 {
                assert(dropped_by(piece, j) == dropped_by(m, j - 1));
            }
        }
        assert(dropped_by(m, l.origin.y - m.origin.y) == dropped_by(piece, l.origin.y - piece.origin.y));
    }
}

/// The field of a grid of squares, `width` by `height`, read row by row.
pub open spec fn grid_field(width: int, height: int, g: Seq<Seq<Cell>>) -> FieldView {
    FieldView { width, height, contents: |p: Point| g[p.y as int][p.x as int] }
}

/// Read-only queries every collision check needs.
///
/// Movement, hard drop and the ghost piece are written against this trait, so
/// they can be exercised against a hand-built fixture and an alternative field
/// needs no changes to the rules that use it.
pub trait Playfield {
    /// The abstract contents of the field.
    spec fn field(&self) -> FieldView;

    /// Number of columns.
    fn width(&self) -> (w: i16)
        ensures
            w == self.field().width,
    ;

    /// Number of rows.
    fn height(&self) -> (h: i16)
        ensures
            h == self.field().height,
    ;

    /// The contents of `at`, or [`None`] when it lies outside the field.
    fn cell(&self, at: Point) -> (c: Option<Cell>)
        ensures
            c == (if self.field().contains(at) {
                Some((self.field().contents)(at))
            } else {
                None
            }),
    ;

    /// Whether `at` lies inside the field.
    fn in_bounds(&self, at: Point) -> (b: bool)
        ensures
            b == self.field().contains(at),
    {
        0 <= at.x && at.x < self.width() && 0 <= at.y && at.y < self.height()
    }

    /// Whether `at` is inside the field and unoccupied.
    fn is_free(&self, at: Point) -> (b: bool)
        ensures
            b == self.field().free_at(at),
    {
        match self.cell(at) {
            Some(c) => c.is_empty(),
            None => false,
        }
    }

    /// Whether `piece` may legally occupy its current position.
    fn accepts(&self, piece: &ActivePiece) -> (b: bool)
        ensures
            b == self.field().fits(*piece),
    {
        if piece.origin.x > i16::MAX - 3 || piece.origin.y > i16::MAX - 3 {
            return false;
        }
        proof {
            piece.lemma_placeable_computable();
        }
        let c = piece.cells();
        let b = self.is_free(c[0]) && self.is_free(c[1]) && self.is_free(c[2]) && self.is_free(c[3]);
        proof {
            let f = self.field();
            if b {
                assert forall|i: int| 0 <= i < 4 implies f.free_at(#[trigger] piece.spec_cells()[i]) by {
                    assert(c@[i] == piece.spec_cells()[i]);
                }
            } else {
                assert(!f.free_at(c@[0]) || !f.free_at(c@[1]) || !f.free_at(c@[2]) || !f.free_at(c@[3]));
            }
        }
        b
    }

    /// The same piece dropped as far as it will go without colliding.
    fn landed(&self, piece: &ActivePiece) -> (p: ActivePiece)
        ensures
            p == self.field().landed_from(*piece),
    {
        let mut resting = *piece;
        loop
            invariant
                self.field().landed_from(resting) == self.field().landed_from(*piece),
            decreases i16::MAX - resting.origin.y,
        {
            if resting.origin.y >= i16::MAX - 3 {
                return resting;
            }
            let next = resting.shifted(Offset::down());
            if self.accepts(&next) {
                resting = next;
            } else {
                return resting;
            }
        }
    }
}

/// A row of `width` empty squares.
pub open spec fn blank_row(width: int) -> Seq<Cell> {
    Seq::new(width as nat, |_i: int| Cell::Empty)
}

/// Whether every square of `row` is occupied.
pub open spec fn row_is_full(row: Seq<Cell>) -> bool {
    forall|x: int| 0 <= x < row.len() ==> #[trigger] row[x] is Filled
}

/// Whether every square of `row` is empty.
pub open spec fn row_is_empty(row: Seq<Cell>) -> bool {
    forall|x: int| 0 <= x < row.len() ==> #[trigger] row[x] is Empty
}

/// The indices of the full rows among the first `n` rows of `g`, topmost first.
pub open spec fn full_rows(g: Seq<Seq<Cell>>, n: int) -> Seq<int>
    decreases n,
{
    if n <= 0 {
        Seq::empty()
    } else if row_is_full(g[n - 1]) {
        full_rows(g, n - 1).push(n - 1)
    } else {
        full_rows(g, n - 1)
    }
}

/// The rows among the first `n` rows of `g` that are not full, topmost first.
pub open spec fn kept_rows(g: Seq<Seq<Cell>>, n: int) -> Seq<Seq<Cell>>
    decreases n,
{
    if n <= 0 {
        Seq::empty()
    } else if row_is_full(g[n - 1]) {
        kept_rows(g, n - 1)
    } else {
        kept_rows(g, n - 1).push(g[n - 1])
    }
}

/// The grid after every full row is removed and the rows above fall down: as
/// many blank rows as were removed, then the surviving rows in their order.
pub open spec fn collapsed(g: Seq<Seq<Cell>>, width: int) -> Seq<Seq<Cell>> {
    Seq::new(full_rows(g, g.len() as int).len(), |_i: int| blank_row(width)) + kept_rows(
        g,
        g.len() as int,
    )
}

/// A rectangular playfield holding locked cells.
#[derive(Debug, PartialEq, Eq)]
pub struct Board {
    width: i16,
    height: i16,
    rows: Vec<Vec<Cell>>,
}

impl Board {
    /// The squares of the board, row by row from the top.
    pub closed spec fn grid(self) -> Seq<Seq<Cell>> {
        self.rows@.map_values(|r: Vec<Cell>| r@)
    }

    /// Number of columns, as a number.
    pub closed spec fn cols(self) -> int {
        self.width as int
    }

    /// Number of rows, as a number.
    pub closed spec fn lines(self) -> int {
        self.height as int
    }

    /// The board's own consistency: positive dimensions, and a grid of exactly
    /// that many rows of that many squares.
    pub open spec fn wf(self) -> bool {
        &&& 0 < self.cols() <= i16::MAX
        &&& 0 < self.lines() <= i16::MAX
        &&& self.grid().len() == self.lines()
        &&& forall|r: int| 0 <= r < self.lines() ==> #[trigger] self.grid()[r].len() == self.cols()
    }

    #[verifier::type_invariant]
    pub open spec fn consistent(self) -> bool {
        self.wf()
    }

    /// Whether two boards hold the same squares.
    pub open spec fn same(self, other: Board) -> bool {
        &&& self.cols() == other.cols()
        &&& self.lines() == other.lines()
        &&& self.grid() == other.grid()
    }

    /// The column count of a standard game.
    pub const STANDARD_WIDTH: i16 = 10;
    /// The row count of a standard game.
    pub const STANDARD_HEIGHT: i16 = 20;

    /// A row of `width` empty squares.
    fn blank(width: i16) -> (row: Vec<Cell>)
        requires
            width > 0,
        ensures
            row@ == blank_row(width as int),
    {
        let mut row: Vec<Cell> = Vec::new();
        let mut x: i16 = 0;
        while x < width
            invariant
                0 <= x <= width,
                row@ == blank_row(x as int),
            decreases width - x,
        {
            row.push(Cell::Empty);
            x = x + 1;
            assert(row@ =~= blank_row(x as int));
        }
        row
    }

    /// Creates an empty board.
    pub fn new(width: i16, height: i16) -> (b: Board)
        requires
            width > 0 && height > 0,
        ensures
            b.wf(),
            b.cols() == width,
            b.lines() == height,
            b.grid() == Seq::new(height as nat, |_r: int| blank_row(width as int)),
    {
        let mut rows: Vec<Vec<Cell>> = Vec::new();
        let mut y: i16 = 0;
        while y < height
            invariant
                0 <= y <= height,
                width > 0,
                rows@.len() == y,
                forall|i: int| 0 <= i < y ==> #[trigger] rows@[i]@ == blank_row(width as int),
            decreases height - y,
        {
            let row = Board::blank(width);
            let ghost prev = rows@;
            rows.push(row);
            assert(rows@ == prev.push(row));
            y = y + 1;
        }
        let b = Board { width, height, rows };
        assert(b.grid() =~= Seq::new(height as nat, |_r: int| blank_row(width as int)));
        b
    }

    /// Creates a board with the standard ten-by-twenty dimensions.
    pub fn standard() -> (b: Board)
        ensures
            b.wf(),
            b.cols() == 10,
            b.lines() == 20,
            b.grid() == Seq::new(20, |_r: int| blank_row(10)),
    {
        Board::new(Board::STANDARD_WIDTH, Board::STANDARD_HEIGHT)
    }

    /// The row and column of `at`, when it lies on the board.
    fn index(&self, at: Point) -> (i: Option<(usize, usize)>)
        ensures
            i == (if inside(self.cols(), self.lines(), at) {
                Some((at.y as usize, at.x as usize))
            } else {
                None
            }),
    {
        proof {
            use_type_invariant(self);
        }
        if 0 <= at.x && at.x < self.width && 0 <= at.y && at.y < self.height {
            Some((at.y as usize, at.x as usize))
        } else {
            None
        }
    }

    /// Writes `cell` at `at`, ignoring positions outside the field.
    pub fn set(&mut self, at: Point, cell: Cell)
        ensures
            final(self).wf(),
            final(self).cols() == old(self).cols(),
            final(self).lines() == old(self).lines(),
            final(self).grid() == (if inside(old(self).cols(), old(self).lines(), at) {
                old(self).grid().update(
                    at.y as int,
                    old(self).grid()[at.y as int].update(at.x as int, cell),
                )
            } else {
                old(self).grid()
            }),
    {
        proof {
            use_type_invariant(&*self);
        }
        if let Some((row, col)) = self.index(at) {
            let ghost before = self.grid();
            assert(self.grid()[row as int].len() == self.cols());
            let mut line = self.row_cells(at.y);
            line.set(col, cell);
            let rows = self.rows_with(at.y, line);
            self.rows = rows;
            assert(self.grid() =~= before.update(row as int, before[row as int].update(col as int, cell)));
        }
    }
}

/// `g` with `c` written at `at`, when `at` lies inside a `width` by `height` field.
pub open spec fn put(g: Seq<Seq<Cell>>, width: int, height: int, at: Point, c: Cell) -> Seq<Seq<Cell>> {
    if inside(width, height, at) {
        g.update(at.y as int, g[at.y as int].update(at.x as int, c))
    } else {
        g
    }
}

/// `g` with `piece` locked into it: each of its cells that lies on the field is
/// filled with the piece's kind.
pub open spec fn locked(g: Seq<Seq<Cell>>, width: int, height: int, piece: ActivePiece) -> Seq<Seq<Cell>> {
    let c = piece.spec_cells();
    let k = Cell::Filled(piece.kind);
    put(put(put(put(g, width, height, c[0], k), width, height, c[1], k), width, height, c[2], k), width, height, c[3], k)
}

/// The topmost row that holds anything, if any.
pub open spec fn top_of(g: Seq<Seq<Cell>>, r: Option<i16>) -> bool {
    match r {
        Some(y) => {
            &&& 0 <= y < g.len()
            &&& !row_is_empty(g[y as int])
            &&& forall|above: int| 0 <= above < y ==> row_is_empty(#[trigger] g[above])
        },
        None => forall|y: int| 0 <= y < g.len() ==> row_is_empty(#[trigger] g[y]),
    }
}

/// Full and kept rows together account for every row.
pub proof fn lemma_rows_partition(g: Seq<Seq<Cell>>, n: int)
    requires
        0 <= n <= g.len(),
    ensures
        full_rows(g, n).len() + kept_rows(g, n).len() == n,
        forall|i: int| 0 <= i < full_rows(g, n).len() ==> {
            &&& 0 <= #[trigger] full_rows(g, n)[i] < n
            &&& row_is_full(g[full_rows(g, n)[i]])
        },
        forall|i: int|
            0 <= i < kept_rows(g, n).len() ==> exists|j: int|
                0 <= j < n && #[trigger] kept_rows(g, n)[i] == g[j] && !row_is_full(g[j]),
    decreases n,
{
    if n > 0 {
        lemma_rows_partition(g, n - 1);
        let kp = kept_rows(g, n - 1);
        if !row_is_full(g[n - 1]) {
            assert forall|i: int| 0 <= i < kept_rows(g, n).len() implies exists|j: int|
                0 <= j < n && #[trigger] kept_rows(g, n)[i] == g[j] && !row_is_full(g[j]) by {
                if i < kp.len() {
                    assert(kept_rows(g, n)[i] == kp[i]);
                } else {
                    assert(kept_rows(g, n)[i] == g[n - 1]);
                }
            }
        }
    }
}

/// When no row is full, removing the full rows changes nothing.
pub proof fn lemma_no_full_rows_keeps_grid(g: Seq<Seq<Cell>>, n: int)
    requires
        0 <= n <= g.len(),
        full_rows(g, n).len() == 0,
    ensures
        kept_rows(g, n) == g.subrange(0, n),
    decreases n,
{
    if n > 0 {
        if row_is_full(g[n - 1]) {
            assert(full_rows(g, n).len() == full_rows(g, n - 1).len() + 1);
        }
        lemma_no_full_rows_keeps_grid(g, n - 1);
        assert(kept_rows(g, n) =~= g.subrange(0, n));
    } else {
        assert(kept_rows(g, n) =~= g.subrange(0, n));
    }
}

/// There are no full rows among the first `n` exactly when none of them is
/// full.
pub proof fn lemma_no_full_rows_iff(g: Seq<Seq<Cell>>, n: int)
    requires
        0 <= n <= g.len(),
    ensures
        (full_rows(g, n).len() == 0) == (forall|r: int| 0 <= r < n ==> !row_is_full(#[trigger] g[r])),
    decreases n,
{
    if n > 0 {
        lemma_no_full_rows_iff(g, n - 1);
        if !row_is_full(g[n - 1]) && full_rows(g, n - 1).len() == 0 {
            assert forall|r: int| 0 <= r < n implies !row_is_full(#[trigger] g[r]) by {
                if r < n - 1 {
                }
            }
        }
    }
}

/// Clearing keeps the number of rows and leaves no full row behind: the rows
/// that fall in at the top are blank, and every row kept was not full.
pub proof fn law_collapse_leaves_no_full_row(g: Seq<Seq<Cell>>, width: int)
    requires
        width > 0,
    ensures
        collapsed(g, width).len() == g.len(),
        full_rows(collapsed(g, width), g.len() as int).len() == 0,
{
    let n = g.len() as int;
    lemma_rows_partition(g, n);
    let c = collapsed(g, width);
    let m = full_rows(g, n).len() as int;
    let kept = kept_rows(g, n);
    assert forall|r: int| 0 <= r < n implies !row_is_full(#[trigger] c[r]) by {
        if r < m {
            assert(c[r] == blank_row(width));
            assert(!(c[r][0] is Filled));
        } else {
            assert(c[r] == kept[r - m]);
            let j = choose|j: int| 0 <= j < n && #[trigger] kept[r - m] == g[j] && !row_is_full(g[j]);
        }
    }
    lemma_no_full_rows_iff(c, n);
}

impl Board {
    /// Squares of row `row`, left to right.
    fn row_cells(&self, row: i16) -> (cells: Vec<Cell>)
        requires
            0 <= row < self.lines(),
        ensures
            cells@ == self.grid()[row as int],
    {
        proof {
            use_type_invariant(self);
        }
        let r = row as usize;
        assert(self.grid()[row as int].len() == self.cols());
        let mut cells: Vec<Cell> = Vec::new();
        let mut x: usize = 0;
        let n = self.rows[r].len();
        while x < n
            invariant
                x <= n,
                n == self.rows@[r as int]@.len(),
                r < self.rows@.len(),
                cells@ == self.rows@[r as int]@.subrange(0, x as int),
            decreases n - x,
        {
            cells.push(self.rows[r][x]);
            x = x + 1;
            assert(cells@ =~= self.rows@[r as int]@.subrange(0, x as int));
        }
        assert(cells@ =~= self.rows@[r as int]@);
        cells
    }

    /// A copy of the rows with row `row` replaced by `line`.
    fn rows_with(&self, row: i16, line: Vec<Cell>) -> (rows: Vec<Vec<Cell>>)
        requires
            0 <= row < self.lines(),
            line@.len() == self.cols(),
        ensures
            rows@.map_values(|r: Vec<Cell>| r@) == self.grid().update(row as int, line@),
            rows@.len() == self.lines(),
            forall|r: int| 0 <= r < self.lines() ==> #[trigger] rows@[r]@.len() == self.cols(),
    {
        proof {
            use_type_invariant(self);
        }
        let mut rows: Vec<Vec<Cell>> = Vec::new();
        let mut y: i16 = 0;
        while y < row
            invariant
                0 <= y <= row < self.lines(),
                self.wf(),
                rows@.len() == y,
                forall|i: int| 0 <= i < y ==> #[trigger] rows@[i]@ == self.grid()[i],
            decreases row - y,
        {
            rows.push(self.row_cells(y));
            y = y + 1;
        }
        let ghost l = line@;
        rows.push(line);
        let mut y: i16 = row + 1;
        while y < self.height
            invariant
                0 <= row < y <= self.lines(),
                self.wf(),
                rows@.len() == y,
                forall|i: int| 0 <= i < y && i != row ==> #[trigger] rows@[i]@ == self.grid()[i],
                rows@[row as int]@ == l,
                l == line@,
            decreases self.lines() - y,
        {
            let next = self.row_cells(y);
            let ghost prev = rows@;
            rows.push(next);
            assert(rows@ == prev.push(next));
            assert(rows@[row as int] == prev[row as int]);
            y = y + 1;
        }
        assert(rows@.map_values(|r: Vec<Cell>| r@) =~= self.grid().update(row as int, line@));
        rows
    }

    /// Locks `piece` into the stack.
    pub fn lock(&mut self, piece: &ActivePiece)
        requires
            piece.computable(),
        ensures
            final(self).wf(),
            final(self).cols() == old(self).cols(),
            final(self).lines() == old(self).lines(),
            final(self).grid() == locked(old(self).grid(), old(self).cols(), old(self).lines(), *piece),
    {
        proof {
            use_type_invariant(&*self);
        }
        let c = piece.cells();
        let k = Cell::Filled(piece.kind);
        self.set(c[0], k);
        self.set(c[1], k);
        self.set(c[2], k);
        self.set(c[3], k);
    }

    /// Whether every square in `row` is occupied.
    pub fn is_row_full(&self, row: i16) -> (b: bool)
        ensures
            b == (0 <= row < self.lines() && row_is_full(self.grid()[row as int])),
    {
        proof {
            use_type_invariant(self);
        }
        if row < 0 || row >= self.height {
            return false;
        }
        assert(self.grid()[row as int].len() == self.cols());
        let mut x: i16 = 0;
        while x < self.width
            invariant
                0 <= x <= self.cols(),
                self.wf(),
                0 <= row < self.lines(),
                forall|i: int| 0 <= i < x ==> #[trigger] self.grid()[row as int][i] is Filled,
            decreases self.cols() - x,
        {
            if self.is_free(Point::new(x, row)) {
                return false;
            }
            x = x + 1;
        }
        true
    }

    /// Whether `row` holds nothing at all.
    pub fn is_row_empty(&self, row: i16) -> (b: bool)
        ensures
            b == (0 <= row < self.lines() && row_is_empty(self.grid()[row as int])),
    {
        proof {
            use_type_invariant(self);
        }
        if row < 0 || row >= self.height {
            return false;
        }
        assert(self.grid()[row as int].len() == self.cols());
        let mut x: i16 = 0;
        while x < self.width
            invariant
                0 <= x <= self.cols(),
                self.wf(),
                0 <= row < self.lines(),
                forall|i: int| 0 <= i < x ==> #[trigger] self.grid()[row as int][i] is Empty,
            decreases self.cols() - x,
        {
            if !self.is_free(Point::new(x, row)) {
                return false;
            }
            x = x + 1;
        }
        true
    }

    /// Removes every full row, collapsing the rows above downward.
    ///
    /// Returns the rows that were removed, topmost first.
    pub fn clear_full_rows(&mut self) -> (cleared: Vec<i16>)
        ensures
            final(self).wf(),
            final(self).cols() == old(self).cols(),
            final(self).lines() == old(self).lines(),
            cleared@.map_values(|r: i16| r as int) == full_rows(old(self).grid(), old(self).lines()),
            final(self).grid() == collapsed(old(self).grid(), old(self).cols()),
    {
        proof {
            use_type_invariant(&*self);
        }
        let ghost g = self.grid();
        let mut cleared: Vec<i16> = Vec::new();
        let mut y: i16 = 0;
        while y < self.height
            invariant
                0 <= y <= self.lines(),
                self.wf(),
                g == self.grid(),
                cleared@.map_values(|r: i16| r as int) == full_rows(g, y as int),
            decreases self.lines() - y,
        {
            if self.is_row_full(y) {
                let ghost prev = cleared@;
                cleared.push(y);
                assert(cleared@.map_values(|r: i16| r as int) =~= prev.map_values(|r: i16| r as int).push(y as int));
            }
            y = y + 1;
        }
        proof {
            lemma_rows_partition(g, g.len() as int);
        }
        if cleared.len() == 0 {
            proof {
                lemma_no_full_rows_keeps_grid(g, g.len() as int);
                assert(collapsed(g, self.cols()) =~= g);
            }
            return cleared;
        }
        let k = cleared.len();
        let mut rows: Vec<Vec<Cell>> = Vec::new();
        let mut i: usize = 0;
        while i < k
            invariant
                i <= k,
                self.wf(),
                rows@.len() == i,
                forall|j: int| 0 <= j < i ==> #[trigger] rows@[j]@ == blank_row(self.cols()),
            decreases k - i,
        {
            rows.push(Board::blank(self.width));
            i = i + 1;
        }
        let mut y: i16 = 0;
        while y < self.height
            invariant
                0 <= y <= self.lines(),
                self.wf(),
                g == self.grid(),
                k == full_rows(g, g.len() as int).len(),
                rows@.len() == k + kept_rows(g, y as int).len(),
                forall|j: int| 0 <= j < k ==> #[trigger] rows@[j]@ == blank_row(self.cols()),
                forall|j: int|
                    0 <= j < kept_rows(g, y as int).len() ==> #[trigger] rows@[k + j]@ == kept_rows(
                        g,
                        y as int,
                    )[j],
            decreases self.lines() - y,
        {
            if !self.is_row_full(y) {
                let line = self.row_cells(y);
                let ghost prev = rows@;
                rows.push(line);
                assert(kept_rows(g, y + 1) == kept_rows(g, y as int).push(g[y as int]));
                assert forall|j: int| 0 <= j < kept_rows(g, y + 1).len() implies #[trigger] rows@[k
                    + j]@ == kept_rows(g, y + 1)[j] by {
                    if j < kept_rows(g, y as int).len() {
                        assert(rows@[k + j] == prev[k + j]);
                    }
                }
            }
            y = y + 1;
        }
        proof {
            let w = self.cols();
            let want = collapsed(g, w);
            let got = rows@.map_values(|r: Vec<Cell>| r@);
            assert(got.len() == want.len());
            assert forall|j: int| 0 <= j < want.len() implies #[trigger] got[j] == want[j] by {
                if j >= k {
                    assert(rows@[k + (j - k)]@ == kept_rows(g, g.len() as int)[j - k]);
                }
            }
            assert(got =~= want);
            assert forall|r: int| 0 <= r < self.lines() implies #[trigger] got[r].len() == self.cols() by {
                if r >= k {
                    let row = kept_rows(g, g.len() as int)[r - k];
                    let j = choose|j: int| 0 <= j < g.len() && row == g[j] && !row_is_full(g[j]);
                    assert(g[j].len() == w);
                }
            }
        }
        self.rows = rows;
        cleared
    }

    /// The highest occupied row, or [`None`] when the board is empty.
    pub fn stack_top(&self) -> (top: Option<i16>)
        ensures
            top_of(self.grid(), top),
    {
        proof {
            use_type_invariant(self);
        }
        let mut y: i16 = 0;
        while y < self.height
            invariant
                0 <= y <= self.lines(),
                self.wf(),
                forall|above: int| 0 <= above < y ==> row_is_empty(#[trigger] self.grid()[above]),
            decreases self.lines() - y,
        {
            if !self.is_row_empty(y) {
                return Some(y);
            }
            y = y + 1;
        }
        None
    }
}

impl Clone for Board {
    fn clone(&self) -> (b: Board)
        ensures
            b.same(*self),
    {
        proof {
            use_type_invariant(self);
        }
        let mut rows: Vec<Vec<Cell>> = Vec::new();
        let mut y: i16 = 0;
        while y < self.height
            invariant
                0 <= y <= self.lines(),
                self.wf(),
                rows@.len() == y,
                forall|i: int| 0 <= i < y ==> #[trigger] rows@[i]@ == self.grid()[i],
            decreases self.lines() - y,
        {
            rows.push(self.row_cells(y));
            y = y + 1;
        }
        let b = Board { width: self.width, height: self.height, rows };
        assert(b.grid() =~= self.grid());
        b
    }
}

impl Playfield for Board {
    open spec fn field(&self) -> FieldView {
        grid_field(self.cols(), self.lines(), self.grid())
    }

    fn width(&self) -> (w: i16) {
        self.width
    }

    fn height(&self) -> (h: i16) {
        self.height
    }

    fn cell(&self, at: Point) -> (c: Option<Cell>) {
        if 0 <= at.x && at.x < self.width && 0 <= at.y && at.y < self.height {
            proof {
                use_type_invariant(self);
                assert(self.grid()[at.y as int].len() == self.cols());
            }
            Some(self.rows[at.y as usize][at.x as usize])
        } else {
            None
        }
    }
}

} // verus!

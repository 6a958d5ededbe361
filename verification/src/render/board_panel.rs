//! The playfield itself: stack, ghost and falling piece.

use vstd::prelude::*;
use crate::board::grid::FieldView;
use crate::board::{Cell, Playfield};
use crate::game::Snapshot;
use crate::geometry::Point;
use crate::piece::ActivePiece;
use crate::render::canvas::{blank_glyph, on_surface, Canvas, Glyph, Picture};
use crate::render::chrome::{box_fits, boxed, draw_box};
use crate::render::color::{piece_color, Color};

verus! {

/// Draws the playfield inside a titled box.
///
/// Each board square is drawn two characters wide, because terminal cells are
/// roughly twice as tall as they are wide and a one-character square renders a
/// visibly squashed board.
#[derive(Debug, Clone, Copy)]
pub struct BoardPanel {
    /// Column of the panel's top-left corner.
    pub x: u16,
    /// Row of the panel's top-left corner.
    pub y: u16,
}

/// Whether the board square `at` is drawn at `(i, j)` by a panel whose corner
/// is `(px, py)`: squares left of or above the board are never drawn, and each
/// square takes two columns.
pub open spec fn covers(px: int, py: int, at: Point, i: int, j: int) -> bool {
    &&& at.x >= 0
    &&& at.y >= 0
    &&& j == py + 1 + at.y
    &&& (i == px + 1 + 2 * at.x || i == px + 2 + 2 * at.x)
}

/// The glyph a square of the stack is drawn with: a block in its piece's
/// colour, or a blank.
pub open spec fn square_glyph(c: Cell) -> Glyph {
    match c {
        Cell::Filled(kind) => Glyph { ch: '█', color: piece_color(kind) },
        Cell::Empty => blank_glyph(),
    }
}

/// Whether the square in column `cx` of row `cy` comes before row `rows`, or
/// in that row before column `cols`.
pub open spec fn square_done(cx: int, cy: int, rows: int, cols: int) -> bool {
    cy < rows || (cy == rows && cx < cols)
}

/// `p` with the squares of `f` drawn, those of the rows before `rows` and the
/// first `cols` of row `rows`.
pub open spec fn stack_pic(
    p: Picture,
    width: int,
    height: int,
    px: int,
    py: int,
    f: FieldView,
    rows: int,
    cols: int,
) -> Picture {
    |i: int, j: int|
        {
            let cx = (i - px - 1) / 2;
            let cy = j - py - 1;
            if i - px - 1 >= 0 && 0 <= cx < f.width && 0 <= cy < f.height && square_done(cx, cy, rows, cols)
                && on_surface(width, height, i, j) {
                square_glyph((f.contents)(Point { x: cx as i16, y: cy as i16 }))
            } else {
                p(i, j)
            }
        }
}

/// `p` with `glyph` drawn over each of the first `n` squares of `cells`.
pub open spec fn piece_pic(
    p: Picture,
    width: int,
    height: int,
    px: int,
    py: int,
    cells: Seq<Point>,
    n: int,
    glyph: Glyph,
) -> Picture {
    |i: int, j: int|
        if on_surface(width, height, i, j) && exists|k: int| 0 <= k < n && covers(px, py, #[trigger] cells[k], i, j) {
            glyph
        } else {
            p(i, j)
        }
}

/// `v` as a column count, or zero when it is negative.
pub open spec fn count_or_zero(v: int) -> int {
    if v < 0 {
        0
    } else {
        v
    }
}

impl BoardPanel {
    /// How many characters wide one board square is drawn.
    pub const CELL_WIDTH: u16 = 2;
    /// The character of a filled square.
    pub const FILLED: char = '█';
    /// The character of the ghost's squares.
    pub const GHOST: char = '░';

    /// Creates a panel anchored at `(x, y)`.
    pub fn new(x: u16, y: u16) -> (p: BoardPanel)
        ensures
            p.x == x && p.y == y,
    {
        BoardPanel { x, y }
    }

    /// The total width this panel occupies for a board `columns` wide.
    pub fn width_for(columns: u16) -> (w: u16)
        requires
            columns * 2 + 2 <= u16::MAX,
        ensures
            w == columns * 2 + 2,
    {
        columns * Self::CELL_WIDTH + 2
    }

    /// The total height this panel occupies for a board `rows` tall.
    pub fn height_for(rows: u16) -> (h: u16)
        requires
            rows + 2 <= u16::MAX,
        ensures
            h == rows + 2,
    {
        rows + 2
    }

    /// Whether the square `at` can be drawn: either it is skipped because it
    /// lies left of or above the board, or both its columns and its row are
    /// addressable.
    pub open spec fn square_fits(self, at: Point) -> bool {
        at.x < 0 || at.y < 0 || (self.x + 2 * at.x + 2 <= u16::MAX && self.y + 1 + at.y <= u16::MAX)
    }

    /// Whether every square of `piece` can be drawn.
    pub open spec fn piece_fits(self, piece: ActivePiece) -> bool {
        &&& piece.computable()
        &&& forall|k: int| 0 <= k < 4 ==> self.square_fits(#[trigger] piece.spec_cells()[k])
    }

    /// Draws `glyph` over the two columns of square `at`.
    fn put_cell<C: Canvas>(&self, canvas: &mut C, at: Point, glyph: Glyph)
        requires
            self.square_fits(at),
        ensures
            final(canvas).spec_width() == old(canvas).spec_width(),
            final(canvas).spec_height() == old(canvas).spec_height(),
            final(canvas).picture() == piece_pic(
                old(canvas).picture(),
                old(canvas).spec_width(),
                old(canvas).spec_height(),
                self.x as int,
                self.y as int,
                seq![at],
                1,
                glyph,
            ),
    {
        let ghost w = canvas.spec_width();
        let ghost h = canvas.spec_height();
        let ghost start = canvas.picture();
        if at.x < 0 || at.y < 0 {
            assert(canvas.picture() =~= piece_pic(start, w, h, self.x as int, self.y as int, seq![at], 1, glyph));
            return;
        }
        let column = at.x as u16;
        let row = at.y as u16;
        let left = self.x + 1 + column * Self::CELL_WIDTH;
        let top = self.y + 1 + row;
        canvas.put(left, top, glyph);
        canvas.put(left + 1, top, glyph);
        proof {
            let goal = piece_pic(start, w, h, self.x as int, self.y as int, seq![at], 1, glyph);
            assert forall|i: int, j: int| #[trigger] canvas.picture()(i, j) == goal(i, j) by {
                if covers(self.x as int, self.y as int, seq![at][0], i, j) {
                    assert(exists|k: int| 0 <= k < 1 && covers(self.x as int, self.y as int, #[trigger] seq![at][k], i, j));
                }
            }
            assert(canvas.picture() =~= goal);
        }
    }

    /// Draws `glyph` over every square of `piece`.
    fn paint_piece<C: Canvas>(&self, canvas: &mut C, piece: &ActivePiece, glyph: Glyph)
        requires
            self.piece_fits(*piece),
        ensures
            final(canvas).spec_width() == old(canvas).spec_width(),
            final(canvas).spec_height() == old(canvas).spec_height(),
            final(canvas).picture() == piece_pic(
                old(canvas).picture(),
                old(canvas).spec_width(),
                old(canvas).spec_height(),
                self.x as int,
                self.y as int,
                piece.spec_cells(),
                4,
                glyph,
            ),
    {
        let ghost w = canvas.spec_width();
        let ghost h = canvas.spec_height();
        let ghost start = canvas.picture();
        let ghost (px, py) = (self.x as int, self.y as int);
        let cells = piece.cells();
        let mut k: usize = 0;
        while k < 4
            invariant
                k <= 4,
                cells@ == piece.spec_cells(),
                self.piece_fits(*piece),
                px == self.x && py == self.y,
                w == old(canvas).spec_width(),
                h == old(canvas).spec_height(),
                start == old(canvas).picture(),
                canvas.spec_width() == w,
                canvas.spec_height() == h,
                canvas.picture() == piece_pic(start, w, h, px, py, cells@, k as int, glyph),
            decreases 4 - k,
        {
            let ghost before = canvas.picture();
            assert(self.square_fits(cells@[k as int]));
            self.put_cell(canvas, cells[k], glyph);
            proof {
                let goal = piece_pic(start, w, h, px, py, cells@, k + 1, glyph);
                assert forall|i: int, j: int| #[trigger] canvas.picture()(i, j) == goal(i, j) by {
                    if on_surface(w, h, i, j) && covers(px, py, cells@[k as int], i, j) {
                        assert(covers(px, py, seq![cells@[k as int]][0], i, j));
                        assert(exists|m: int| 0 <= m < 1 && covers(px, py, #[trigger] seq![cells@[k as int]][m], i, j));
                    }
                    if on_surface(w, h, i, j) && exists|m: int| 0 <= m < k + 1 && covers(px, py, #[trigger] cells@[m], i, j) {
                        let m = choose|m: int| 0 <= m < k + 1 && covers(px, py, #[trigger] cells@[m], i, j);
                        if m == k {
                            assert(covers(px, py, seq![cells@[k as int]][0], i, j));
                        }
                    }
                    if on_surface(w, h, i, j) && exists|m: int| 0 <= m < 1 && covers(px, py, #[trigger] seq![cells@[k as int]][m], i, j) {
                        let m = choose|m: int| 0 <= m < 1 && covers(px, py, #[trigger] seq![cells@[k as int]][m], i, j);
                        assert(covers(px, py, cells@[k as int], i, j));
                    }
                }
                assert(canvas.picture() =~= goal);
            }
            k = k + 1;
        }
    }

    /// Whether the board's squares, the box around them and its title can all
    /// be drawn.
    pub open spec fn stack_fits(self, f: FieldView) -> bool {
        &&& box_fits(self.x as int, self.y as int, "TETRIS"@)
        &&& self.x + 2 * f.width <= u16::MAX
        &&& self.y + f.height <= u16::MAX
    }

    /// Draws every square of `board`, row by row.
    fn paint_stack<C: Canvas, P: Playfield>(&self, canvas: &mut C, board: &P)
        requires
            self.stack_fits(board.field()),
            board.field().width > 0,
            board.field().height > 0,
        ensures
            final(canvas).spec_width() == old(canvas).spec_width(),
            final(canvas).spec_height() == old(canvas).spec_height(),
            final(canvas).picture() == stack_pic(
                old(canvas).picture(),
                old(canvas).spec_width(),
                old(canvas).spec_height(),
                self.x as int,
                self.y as int,
                board.field(),
                board.field().height,
                0,
            ),
    {
        let ghost w = canvas.spec_width();
        let ghost h = canvas.spec_height();
        let ghost start = canvas.picture();
        let ghost (px, py) = (self.x as int, self.y as int);
        let ghost f = board.field();
        let width = board.width();
        let height = board.height();
        let mut y: i16 = 0;
        while y < height
            invariant
                0 <= y <= height,
                f == board.field(),
                width == f.width,
                height == f.height,
                width > 0,
                self.stack_fits(f),
                px == self.x && py == self.y,
                w == old(canvas).spec_width(),
                h == old(canvas).spec_height(),
                start == old(canvas).picture(),
                canvas.spec_width() == w,
                canvas.spec_height() == h,
                canvas.picture() == stack_pic(start, w, h, px, py, f, y as int, 0),
            decreases height - y,
        {
            let mut x: i16 = 0;
            while x < width
                invariant
                    0 <= x <= width,
                    0 <= y < height,
                    f == board.field(),
                    width == f.width,
                    height == f.height,
                    self.stack_fits(f),
                    px == self.x && py == self.y,
                    w == old(canvas).spec_width(),
                    h == old(canvas).spec_height(),
                    start == old(canvas).picture(),
                    canvas.spec_width() == w,
                    canvas.spec_height() == h,
                    canvas.picture() == stack_pic(start, w, h, px, py, f, y as int, x as int),
                decreases width - x,
            {
                let at = Point::new(x, y);
                let glyph = match board.cell(at) {
                    Some(Cell::Filled(kind)) => Glyph::new(Self::FILLED, Color::of(kind)),
                    _ => Glyph::blank(),
                };
                assert(glyph == square_glyph((f.contents)(at)));
                let ghost before = canvas.picture();
                self.put_cell(canvas, at, glyph);
                proof {
                    let goal = stack_pic(start, w, h, px, py, f, y as int, x + 1);
                    assert forall|i: int, j: int| #[trigger] canvas.picture()(i, j) == goal(i, j) by {
                        if on_surface(w, h, i, j) && exists|m: int| 0 <= m < 1 && covers(px, py, #[trigger] seq![at][m], i, j) {
                            let m = choose|m: int| 0 <= m < 1 && covers(px, py, #[trigger] seq![at][m], i, j);
                            assert(covers(px, py, at, i, j));
                        }
                        if i - px - 1 >= 0 && (i - px - 1) / 2 == x && j - py - 1 == y {
                            assert(covers(px, py, seq![at][0], i, j));
                        }
                    }
                    assert(canvas.picture() =~= goal);
                }
                x = x + 1;
            }
            assert(stack_pic(start, w, h, px, py, f, y as int, width as int) =~= stack_pic(start, w, h, px, py, f, y + 1, 0));
            y = y + 1;
        }
    }
}

/// The stack, ghost and falling piece of `snapshot` drawn inside the
/// panel's titled box: the ghost only where it is visible, and the falling
/// piece over everything else.
pub open spec fn board_painted(panel: BoardPanel, snapshot: Snapshot, width: int, height: int, before: Picture) -> Picture {
    let f = snapshot.board.field();
    let (px, py) = (panel.x as int, panel.y as int);
    let framed = boxed(before, width, height, px, py, count_or_zero(f.width) * 2, count_or_zero(f.height), "TETRIS"@);
    let stack = stack_pic(framed, width, height, px, py, f, f.height, 0);
    let ghosted = if snapshot.ghost_piece.origin != snapshot.current.origin {
        piece_pic(stack, width, height, px, py, snapshot.ghost_piece.spec_cells(), 4, Glyph { ch: '░', color: Color::Dim })
    } else {
        stack
    };
    piece_pic(
        ghosted,
        width,
        height,
        px,
        py,
        snapshot.current.spec_cells(),
        4,
        Glyph { ch: '█', color: piece_color(snapshot.current.kind) },
    )
}

impl crate::render::view::View for BoardPanel {
    /// The box, the stack and both pieces can be drawn without a coordinate
    /// overflowing, and both pieces have computable cells.
    open spec fn can_paint(&self, snapshot: Snapshot) -> bool {
        &&& self.stack_fits(snapshot.board.field())
        &&& self.piece_fits(snapshot.current)
        &&& snapshot.ghost_piece.origin != snapshot.current.origin ==> self.piece_fits(snapshot.ghost_piece)
    }

    open spec fn painted(&self, snapshot: Snapshot, width: int, height: int, before: Picture) -> Picture {
        board_painted(*self, snapshot, width, height, before)
    }

    fn paint<C: Canvas>(&self, snapshot: &Snapshot, canvas: &mut C) {
        proof {
            use_type_invariant(&snapshot.board);
        }
        let board = &snapshot.board;
        let columns = board.width() as u16;
        let rows = board.height() as u16;
        draw_box(canvas, self.x, self.y, columns * Self::CELL_WIDTH, rows, "TETRIS");
        self.paint_stack(canvas, board);
        if snapshot.ghost_is_visible() {
            self.paint_piece(canvas, &snapshot.ghost_piece, Glyph::new(Self::GHOST, Color::Dim));
        }
        let color = Color::of(snapshot.current.kind);
        self.paint_piece(canvas, &snapshot.current, Glyph::new(Self::FILLED, color));
    }
}

/// The falling piece is drawn over everything else: at both columns of each
/// of its squares that lie right of and below the board's corner, the picture
/// shows a block in the piece's colour, whether or not the ghost or the stack
/// covers that square too.
pub proof fn law_falling_piece_drawn_on_top(
    panel: BoardPanel,
    snapshot: Snapshot,
    width: int,
    height: int,
    before: Picture,
    k: int,
    i: int,
    j: int,
)
    requires
        0 <= k < 4,
        covers(panel.x as int, panel.y as int, snapshot.current.spec_cells()[k], i, j),
        on_surface(width, height, i, j),
    ensures
        crate::render::view::View::painted(&panel, snapshot, width, height, before)(i, j) == (Glyph {
            ch: '█',
            color: piece_color(snapshot.current.kind),
        }),
{
    assert(exists|m: int| 0 <= m < 4 && covers(panel.x as int, panel.y as int, #[trigger] snapshot.current.spec_cells()[m], i, j));
}

/// The ghost is drawn, dimmed, wherever it is visible and the falling piece
/// does not cover it; and where neither piece covers a square of the board,
/// the stack's own square shows.
pub proof fn law_ghost_and_stack_drawn_beneath(
    panel: BoardPanel,
    snapshot: Snapshot,
    width: int,
    height: int,
    before: Picture,
    i: int,
    j: int,
)
    requires
        on_surface(width, height, i, j),
        !exists|m: int| 0 <= m < 4 && covers(panel.x as int, panel.y as int, #[trigger] snapshot.current.spec_cells()[m], i, j),
    ensures
        snapshot.ghost_piece.origin != snapshot.current.origin && (exists|m: int|
            0 <= m < 4 && covers(panel.x as int, panel.y as int, #[trigger] snapshot.ghost_piece.spec_cells()[m], i, j))
            ==> crate::render::view::View::painted(&panel, snapshot, width, height, before)(i, j) == (Glyph {
            ch: '░',
            color: Color::Dim,
        }),
        !(snapshot.ghost_piece.origin != snapshot.current.origin && (exists|m: int|
            0 <= m < 4 && covers(panel.x as int, panel.y as int, #[trigger] snapshot.ghost_piece.spec_cells()[m], i, j)))
            ==> crate::render::view::View::painted(&panel, snapshot, width, height, before)(i, j) == stack_pic(
            boxed(
                before,
                width,
                height,
                panel.x as int,
                panel.y as int,
                count_or_zero(snapshot.board.field().width) * 2,
                count_or_zero(snapshot.board.field().height),
                "TETRIS"@,
            ),
            width,
            height,
            panel.x as int,
            panel.y as int,
            snapshot.board.field(),
            snapshot.board.field().height,
            0,
        )(i, j),
{
}

} // verus!

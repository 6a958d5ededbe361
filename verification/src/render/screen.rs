//! The full game screen, composed from the individual panels.

use vstd::prelude::*;
use crate::board::grid::Playfield;
use crate::game::Snapshot;
use crate::render::board_panel::{board_painted, covers, piece_pic, stack_pic, BoardPanel};
use crate::render::chrome::boxed;
use crate::render::canvas::Glyph;
use crate::render::color::{piece_color, Color};
use crate::render::sidebar_panel::{lemma_decimal_len, pow10, preview_count, sidebar_painted};
use crate::piece::ActivePiece;
use crate::render::canvas::{Canvas, Picture};
use crate::render::help_panel::HelpPanel;
use crate::render::overlay_panel::OverlayPanel;
use crate::render::sidebar_panel::SidebarPanel;
use crate::render::view::View as _;

verus! {

/// Lays the panels out and paints them in order.
///
/// Layout is computed once from the board dimensions rather than hard-coded, so
/// a wider or taller board needs no changes here; the panels themselves know
/// nothing about each other.
#[derive(Debug, Clone, Copy)]
pub struct Screen {
    /// The playfield, top left.
    pub board: BoardPanel,
    /// The totals and upcoming pieces, beside the playfield.
    pub sidebar: SidebarPanel,
    /// The pause and game-over banner, over the playfield's interior.
    pub overlay: OverlayPanel,
    /// The key hints, beneath the playfield.
    pub help: HelpPanel,
}

/// Whether a layout for a board `columns` by `rows` can be computed: the
/// sidebar's far edge and the hint line's row must be addressable.
pub open spec fn layout_fits(columns: int, rows: int) -> bool {
    &&& 2 * columns + 4 <= u16::MAX
    &&& rows + 3 <= u16::MAX
}

/// The layout for a board `columns` by `rows`: the board one square in from
/// the corner, the sidebar one column right of it, the banner over the
/// board's interior and the hints on the row below the board.
pub open spec fn layout(columns: int, rows: int) -> Screen {
    Screen {
        board: BoardPanel { x: 1, y: 1 },
        sidebar: SidebarPanel { x: (2 * columns + 4) as u16, y: 1 },
        overlay: OverlayPanel { x: 2, y: 2, width: (2 * columns) as u16, height: rows as u16 },
        help: HelpPanel { x: 1, y: (rows + 3) as u16 },
    }
}

impl Screen {
    /// Blank columns kept around the whole layout.
    pub const MARGIN: u16 = 1;

    /// Builds a layout for a board of `columns` by `rows`.
    pub fn for_board(columns: u16, rows: u16) -> (s: Screen)
        requires
            layout_fits(columns as int, rows as int),
        ensures
            s == layout(columns as int, rows as int),
    {
        let board_width = BoardPanel::width_for(columns);
        let board_height = BoardPanel::height_for(rows);
        let left = Self::MARGIN;
        let top = Self::MARGIN;
        Screen {
            board: BoardPanel::new(left, top),
            sidebar: SidebarPanel::new(left + board_width + 1, top),
            overlay: OverlayPanel::new(left + 1, top + 1, columns * BoardPanel::CELL_WIDTH, rows),
            help: HelpPanel::new(left, top + board_height),
        }
    }

    /// The smallest terminal this layout fits in, as `(columns, rows)`: wide
    /// enough for the sidebar and for the hints, tall enough for the hints
    /// below the board and for the sidebar with its full list of upcoming
    /// pieces.
    pub fn required_size(columns: u16, rows: u16) -> (size: (u16, u16))
        requires
            2 * columns + 19 <= u16::MAX,
            rows + 4 <= u16::MAX,
        ensures
            size.0 == required_width(columns as int),
            size.1 == required_height(rows as int),
    {
        let layout = Self::for_board(columns, rows);
        let right = layout.sidebar.x + SidebarPanel::WIDTH + Self::MARGIN;
        let hints = HelpPanel::width() + Self::MARGIN * 2;
        let width = if right >= hints {
            right
        } else {
            hints
        };
        let below_hints = layout.help.y + 1;
        let below_sidebar = layout.sidebar.y + SidebarPanel::HEIGHT;
        let height = if below_hints >= below_sidebar {
            below_hints
        } else {
            below_sidebar
        };
        (width, height)
    }

    /// The size [`Screen::required_size`] gives, counted in a wider type so
    /// that it exists for every board.
    pub fn required_extent(columns: u16, rows: u16) -> (size: (u32, u32))
        ensures
            size.0 == required_width(columns as int),
            size.1 == required_height(rows as int),
    {
        let right: u32 = 2 * columns as u32 + 19;
        let below: u32 = rows as u32 + 4;
        let width: u32 = if right >= 67 { right } else { 67 };
        let height: u32 = if below >= 18 { below } else { 18 };
        (width, height)
    }

    /// Whether a terminal `width` by `height` holds the whole screen for a
    /// board `columns` by `rows`.
    pub fn fits_terminal(columns: u16, rows: u16, width: u16, height: u16) -> (b: bool)
        ensures
            b == (width >= required_width(columns as int) && height >= required_height(rows as int)),
    {
        let (needed_width, needed_height) = Self::required_extent(columns, rows);
        width as u32 >= needed_width && height as u32 >= needed_height
    }
}

/// The columns a screen for a board `columns` wide needs: room for the
/// sidebar beside the board, and for the hint line.
pub open spec fn required_width(columns: int) -> int {
    if 2 * columns + 19 >= 67 {
        2 * columns + 19
    } else {
        67
    }
}

/// The rows a screen for a board `rows` tall needs: room for the hint line
/// below the board, and for the sidebar with its full list of upcoming pieces.
pub open spec fn required_height(rows: int) -> int {
    if rows + 4 >= 18 {
        rows + 4
    } else {
        18
    }
}

/// Whether every cell of `piece` that lies right of and below the board's
/// corner lies on a board `columns` by `rows`.
pub open spec fn within_board(piece: ActivePiece, columns: int, rows: int) -> bool {
    forall|k: int| 0 <= k < 4 ==> {
        &&& #[trigger] piece.spec_cells()[k].x < columns
        &&& piece.spec_cells()[k].y < rows
    }
}

/// The board, then the sidebar, then the hints, then the banner over them.
pub open spec fn screen_painted(s: Screen, snapshot: Snapshot, width: int, height: int, before: Picture) -> Picture {
    let p1 = s.board.painted(snapshot, width, height, before);
    let p2 = s.sidebar.painted(snapshot, width, height, p1);
    let p3 = s.help.painted(snapshot, width, height, p2);
    s.overlay.painted(snapshot, width, height, p3)
}

impl crate::render::view::View for Screen {
    open spec fn can_paint(&self, snapshot: Snapshot) -> bool {
        &&& self.board.can_paint(snapshot)
        &&& self.sidebar.can_paint(snapshot)
        &&& self.help.can_paint(snapshot)
        &&& self.overlay.can_paint(snapshot)
    }

    open spec fn painted(&self, snapshot: Snapshot, width: int, height: int, before: Picture) -> Picture {
        screen_painted(*self, snapshot, width, height, before)
    }

    fn paint<C: Canvas>(&self, snapshot: &Snapshot, canvas: &mut C) {
        self.board.paint(snapshot, canvas);
        self.sidebar.paint(snapshot, canvas);
        self.help.paint(snapshot, canvas);
        self.overlay.paint(snapshot, canvas);
    }
}

/// The board panel of the standard layout paints nothing beyond the size the
/// screen requires.
proof fn lemma_board_stays_inside(
    columns: int,
    rows: int,
    shot: Snapshot,
    width: int,
    height: int,
    before: Picture,
    i: int,
    j: int,
)
    requires
        0 <= columns,
        0 <= rows,
        shot.board.field().width == columns,
        shot.board.field().height == rows,
        within_board(shot.current, columns, rows),
        shot.ghost_piece.origin != shot.current.origin ==> within_board(shot.ghost_piece, columns, rows),
        i >= required_width(columns) || j >= required_height(rows),
    ensures
        layout(columns, rows).board.painted(shot, width, height, before)(i, j) == before(i, j),
{
    reveal_strlit("TETRIS");
    let f = shot.board.field();
    let framed = boxed(before, width, height, 1, 1, columns * 2, rows, "TETRIS"@);
    let stack = stack_pic(framed, width, height, 1, 1, f, f.height, 0);
    let ghosted = if shot.ghost_piece.origin != shot.current.origin {
        piece_pic(stack, width, height, 1, 1, shot.ghost_piece.spec_cells(), 4, Glyph { ch: '░', color: Color::Dim })
    } else {
        stack
    };
    let last = piece_pic(
        ghosted,
        width,
        height,
        1,
        1,
        shot.current.spec_cells(),
        4,
        Glyph { ch: '█', color: piece_color(shot.current.kind) },
    );
    assert(framed(i, j) == before(i, j));
    assert(stack(i, j) == framed(i, j));
    if shot.ghost_piece.origin != shot.current.origin {
        assert(!exists|k: int| 0 <= k < 4 && covers(1, 1, #[trigger] shot.ghost_piece.spec_cells()[k], i, j));
    }
    assert(ghosted(i, j) == stack(i, j));
    assert(!exists|k: int| 0 <= k < 4 && covers(1, 1, #[trigger] shot.current.spec_cells()[k], i, j));
    assert(last(i, j) == ghosted(i, j));
    assert(board_painted(layout(columns, rows).board, shot, width, height, before) == last);
}

/// A total in the sidebar is painted within the panel's first thirteen
/// columns and the rows of its totals box.
proof fn lemma_stat_stays_inside(
    panel: SidebarPanel,
    p: Picture,
    width: int,
    height: int,
    row: int,
    label: Seq<char>,
    value: u32,
    i: int,
    j: int,
)
    requires
        0 <= row <= 6,
        label.len() <= 6,
        i >= panel.x + 13 || j >= panel.y + 9 || j < panel.y,
    ensures
        panel.stat_pic(p, width, height, row, label, value)(i, j) == p(i, j),
{
    reveal_with_fuel(pow10, 11);
    lemma_decimal_len(value as nat, 10);
}

/// The sidebar of the standard layout paints nothing beyond the size the
/// screen requires.
proof fn lemma_sidebar_stays_inside(
    columns: int,
    rows: int,
    shot: Snapshot,
    width: int,
    height: int,
    before: Picture,
    i: int,
    j: int,
)
    requires
        0 <= columns,
        0 <= rows,
        2 * columns + 19 <= u16::MAX,
        i >= required_width(columns) || j >= required_height(rows),
    ensures
        layout(columns, rows).sidebar.painted(shot, width, height, before)(i, j) == before(i, j),
{
    reveal_strlit("STATS");
    reveal_strlit("SCORE");
    reveal_strlit("LINES");
    reveal_strlit("LEVEL");
    reveal_strlit("PIECES");
    reveal_strlit("NEXT");
    let panel = layout(columns, rows).sidebar;
    let (x, y) = (panel.x as int, panel.y as int);
    let stats = shot.stats;
    let framed = boxed(before, width, height, x, y, 12, 8, "STATS"@);
    let p1 = panel.stat_pic(framed, width, height, 0, "SCORE"@, stats.score);
    let p2 = panel.stat_pic(p1, width, height, 2, "LINES"@, stats.lines);
    let p3 = panel.stat_pic(p2, width, height, 4, "LEVEL"@, stats.level);
    let p4 = panel.stat_pic(p3, width, height, 6, "PIECES"@, stats.pieces);
    let count = preview_count(shot.next@.len() as int);
    let next_box = boxed(p4, width, height, x, y + 10, 12, if count > 0 { count } else { 1 }, "NEXT"@);
    let last = panel.preview_pic(next_box, width, height, shot.next@, count);
    assert(framed(i, j) == before(i, j));
    lemma_stat_stays_inside(panel, framed, width, height, 0, "SCORE"@, stats.score, i, j);
    lemma_stat_stays_inside(panel, p1, width, height, 2, "LINES"@, stats.lines, i, j);
    lemma_stat_stays_inside(panel, p2, width, height, 4, "LEVEL"@, stats.level, i, j);
    lemma_stat_stays_inside(panel, p3, width, height, 6, "PIECES"@, stats.pieces, i, j);
    assert(next_box(i, j) == p4(i, j));
    assert(last(i, j) == next_box(i, j));
    assert(sidebar_painted(panel, shot, width, height, before) == last);
}

/// The size [`Screen::required_size`] gives holds the whole screen: painting
/// a snapshot of a board `columns` by `rows`, whose pieces lie on the board,
/// changes nothing at a column or row beyond that size, on a canvas of any size.
pub proof fn law_required_size_holds_the_screen(
    columns: u16,
    rows: u16,
    shot: Snapshot,
    width: int,
    height: int,
    before: Picture,
    i: int,
    j: int,
)
    requires
        2 * columns + 19 <= u16::MAX,
        rows + 4 <= u16::MAX,
        shot.board.field().width == columns,
        shot.board.field().height == rows,
        within_board(shot.current, columns as int, rows as int),
        shot.ghost_piece.origin != shot.current.origin ==> within_board(shot.ghost_piece, columns as int, rows as int),
        i >= required_width(columns as int) || j >= required_height(rows as int),
    ensures
        screen_painted(layout(columns as int, rows as int), shot, width, height, before)(i, j) == before(i, j),
{
    let s = layout(columns as int, rows as int);
    let p1 = s.board.painted(shot, width, height, before);
    let p2 = s.sidebar.painted(shot, width, height, p1);
    let p3 = s.help.painted(shot, width, height, p2);
    let p4 = s.overlay.painted(shot, width, height, p3);
    lemma_board_stays_inside(columns as int, rows as int, shot, width, height, before, i, j);
    assert(p1(i, j) == before(i, j));
    lemma_sidebar_stays_inside(columns as int, rows as int, shot, width, height, p1, i, j);
    assert(p2(i, j) == p1(i, j));
    reveal_strlit("←→ move  ↑/z turn  ↓ soft  space drop  p pause  r restart  q quit");
    assert(p3(i, j) == p2(i, j));
    reveal_strlit("PAUSED");
    reveal_strlit("p to resume");
    reveal_strlit("GAME OVER");
    reveal_strlit("r to restart");
    assert(p4(i, j) == p3(i, j));
}

} // verus!

//! Borders and labels shared by the panels.

use vstd::prelude::*;
use crate::render::canvas::{on_surface, put_pic, write_pic, Canvas, Glyph, Picture};
use crate::render::color::Color;

verus! {

/// `v` capped at the largest column or row a canvas can address.
pub open spec fn capped(v: int) -> int {
    if v > u16::MAX {
        u16::MAX as int
    } else {
        v
    }
}

/// The border character at `(i, j)` of a box whose corners are `(x, y)` and
/// `(right, bottom)`, with the horizontal edges drawn up to column `cols`
/// (exclusive) and the vertical ones down to row `rows` (exclusive).
pub open spec fn border_char(x: int, y: int, right: int, bottom: int, cols: int, rows: int, i: int, j: int) -> Option<char> {
    if i == x && j == y {
        Some('┌')
    } else if i == right && j == y {
        Some('┐')
    } else if i == x && j == bottom {
        Some('└')
    } else if i == right && j == bottom {
        Some('┘')
    } else if (j == y || j == bottom) && x < i < cols {
        Some('─')
    } else if (i == x || i == right) && y < j < rows {
        Some('│')
    } else {
        None
    }
}

/// `p` with the border characters laid over it, dimmed, wherever they land on
/// the surface.
pub open spec fn framed(
    p: Picture,
    width: int,
    height: int,
    x: int,
    y: int,
    right: int,
    bottom: int,
    cols: int,
    rows: int,
) -> Picture {
    |i: int, j: int|
        match border_char(x, y, right, bottom, cols, rows, i, j) {
            Some(c) => if on_surface(width, height, i, j) {
                Glyph { ch: c, color: Color::Dim }
            } else {
                p(i, j)
            },
            None => p(i, j),
        }
}

/// `p` with a single-line box drawn around an interior of `inner_width` by
/// `inner_height` whose corner sits at `(x + 1, y + 1)`, and `title`, if it is
/// not empty, written into the top edge from column `x + 2`.
pub open spec fn boxed(
    p: Picture,
    width: int,
    height: int,
    x: int,
    y: int,
    inner_width: int,
    inner_height: int,
    title: Seq<char>,
) -> Picture {
    let right = capped(x + inner_width + 1);
    let bottom = capped(y + inner_height + 1);
    let frame = framed(p, width, height, x, y, right, bottom, right, bottom);
    if title.len() == 0 {
        frame
    } else {
        write_pic(frame, width, height, x + 2, y, title, Color::Default)
    }
}

/// Whether a box with this corner and title can be drawn: its first interior
/// column and row, and the title's first column, must be addressable.
pub open spec fn box_fits(x: int, y: int, title: Seq<char>) -> bool {
    &&& x < u16::MAX
    &&& y < u16::MAX
    &&& title.len() > 0 ==> x + 2 <= u16::MAX
}

/// Draws a single-line box whose interior is `width` by `height`.
///
/// The box is drawn *around* the interior, so a caller positions content at
/// `(x + 1, y + 1)` and never has to reason about where the border went. Parts
/// that fall off the canvas are clipped.
pub fn draw_box<C: Canvas>(canvas: &mut C, x: u16, y: u16, width: u16, height: u16, title: &str)
    requires
        box_fits(x as int, y as int, title@),
    ensures
        final(canvas).spec_width() == old(canvas).spec_width(),
        final(canvas).spec_height() == old(canvas).spec_height(),
        final(canvas).picture() == boxed(
            old(canvas).picture(),
            old(canvas).spec_width(),
            old(canvas).spec_height(),
            x as int,
            y as int,
            width as int,
            height as int,
            title@,
        ),
{
    let ghost w = canvas.spec_width();
    let ghost h = canvas.spec_height();
    let ghost start = canvas.picture();
    let right = x.saturating_add(width).saturating_add(1);
    let bottom = y.saturating_add(height).saturating_add(1);
    let ghost (xi, yi, ri, bi) = (x as int, y as int, right as int, bottom as int);
    assert(ri == capped(xi + width + 1) && bi == capped(yi + height + 1));

    canvas.put(x, y, Glyph::new('┌', Color::Dim));
    canvas.put(right, y, Glyph::new('┐', Color::Dim));
    canvas.put(x, bottom, Glyph::new('└', Color::Dim));
    canvas.put(right, bottom, Glyph::new('┘', Color::Dim));
    assert(canvas.picture() =~= framed(start, w, h, xi, yi, ri, bi, xi + 1, yi + 1));

    let mut column: u16 = x + 1;
    while column < right
        invariant
            x < column <= right,
            w == old(canvas).spec_width(),
            h == old(canvas).spec_height(),
            start == old(canvas).picture(),
            canvas.spec_width() == w,
            canvas.spec_height() == h,
            xi == x && yi == y && ri == right && bi == bottom,
            y < bottom,
            canvas.picture() == framed(start, w, h, xi, yi, ri, bi, column as int, yi + 1),
        decreases right - column,
    {
        canvas.put(column, y, Glyph::new('─', Color::Dim));
        canvas.put(column, bottom, Glyph::new('─', Color::Dim));
        assert(canvas.picture() =~= framed(start, w, h, xi, yi, ri, bi, column + 1, yi + 1));
        column = column + 1;
    }

    let mut row: u16 = y + 1;
    while row < bottom
        invariant
            y < row <= bottom,
            x < right,
            xi == x && yi == y && ri == right && bi == bottom,
            w == old(canvas).spec_width(),
            h == old(canvas).spec_height(),
            start == old(canvas).picture(),
            canvas.spec_width() == w,
            canvas.spec_height() == h,
            canvas.picture() == framed(start, w, h, xi, yi, ri, bi, ri, row as int),
        decreases bottom - row,
    {
        canvas.put(x, row, Glyph::new('│', Color::Dim));
        canvas.put(right, row, Glyph::new('│', Color::Dim));
        assert(canvas.picture() =~= framed(start, w, h, xi, yi, ri, bi, ri, row + 1));
        row = row + 1;
    }

    if !title.is_empty() {
        canvas.write(x + 2, y, title, Color::Default);
    }
}

} // verus!

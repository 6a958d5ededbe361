//! A surface views draw onto.

use vstd::prelude::*;
use crate::render::color::Color;
use crate::text::push_char;

verus! {

/// One character cell with a colour.
#[derive(Debug, Clone, Copy, PartialEq, Eq, Structural)]
pub struct Glyph {
    /// The character to show.
    pub ch: char,
    /// The colour to show it in.
    pub color: Color,
}

/// The blank cell: a space in the default colour.
pub open spec fn blank_glyph() -> Glyph {
    Glyph { ch: ' ', color: Color::Default }
}

impl Glyph {
    /// Builds a glyph.
    pub fn new(ch: char, color: Color) -> (g: Glyph)
        ensures
            g == (Glyph { ch, color }),
    {
        Glyph { ch, color }
    }

    /// A blank cell.
    pub fn blank() -> (g: Glyph)
        ensures
            g == blank_glyph(),
    {
        Glyph { ch: ' ', color: Color::Default }
    }
}

impl Default for Glyph {
    fn default() -> (g: Glyph)
        ensures
            g == blank_glyph(),
    {
        Glyph::blank()
    }
}

/// What a canvas shows: the glyph at every column and row.
pub type Picture = spec_fn(int, int) -> Glyph;

/// A picture with nothing drawn on it.
pub open spec fn blank_picture() -> Picture {
    |i: int, j: int| blank_glyph()
}

/// Whether `(x, y)` lies on a surface `width` by `height`.
pub open spec fn on_surface(width: int, height: int, x: int, y: int) -> bool {
    0 <= x < width && 0 <= y < height
}

/// `p` with `glyph` written at `(x, y)`, unless that lies off the surface.
pub open spec fn put_pic(p: Picture, width: int, height: int, x: int, y: int, glyph: Glyph) -> Picture {
    |i: int, j: int|
        if i == x && j == y && on_surface(width, height, x, y) {
            glyph
        } else {
            p(i, j)
        }
}

/// `p` with `text` written rightward from `(x, y)` in `color`; characters that
/// fall off the surface are dropped.
pub open spec fn write_pic(
    p: Picture,
    width: int,
    height: int,
    x: int,
    y: int,
    text: Seq<char>,
    color: Color,
) -> Picture {
    |i: int, j: int|
        if j == y && x <= i < x + text.len() && on_surface(width, height, i, j) {
            Glyph { ch: text[i - x], color }
        } else {
            p(i, j)
        }
}

/// Somewhere glyphs can be written.
///
/// Every view targets this trait, never a terminal. That is what allows a view
/// to be rendered into a plain string in a test and asserted on exactly, which
/// is otherwise the least testable part of a TUI.
pub trait Canvas: Sized {
    /// Total columns available.
    open spec fn spec_width(&self) -> int {
        arbitrary()
    }

    /// Total rows available.
    open spec fn spec_height(&self) -> int {
        arbitrary()
    }

    /// What the canvas currently shows.
    open spec fn picture(&self) -> Picture {
        arbitrary()
    }

    /// Whether presenting this canvas may turn it into `after` with the
    /// outcome `r`. Each canvas says what presenting does.
    open spec fn presents_to(&self, after: Self, r: std::io::Result<()>) -> bool {
        arbitrary()
    }

    /// Total columns available.
    fn width(&self) -> (w: u16)
        ensures
            w == self.spec_width(),
    ;

    /// Total rows available.
    fn height(&self) -> (h: u16)
        ensures
            h == self.spec_height(),
    ;

    /// Writes one glyph, ignoring positions outside the surface.
    fn put(&mut self, x: u16, y: u16, glyph: Glyph)
        ensures
            final(self).spec_width() == old(self).spec_width(),
            final(self).spec_height() == old(self).spec_height(),
            final(self).picture() == put_pic(
                old(self).picture(),
                old(self).spec_width(),
                old(self).spec_height(),
                x as int,
                y as int,
                glyph,
            ),
    ;

    /// Resets every cell to blank.
    fn clear(&mut self)
        ensures
            final(self).spec_width() == old(self).spec_width(),
            final(self).spec_height() == old(self).spec_height(),
            final(self).picture() == blank_picture(),
    ;

    /// Shows everything drawn since the last call.
    ///
    /// An in-memory canvas has nothing to do here; a terminal flushes. Keeping
    /// it on the trait means the game loop never learns which it is holding.
    /// What the canvas holds is left as it was, whatever the outcome.
    fn present(&mut self) -> (r: std::io::Result<()>)
        ensures
            final(self).spec_width() == old(self).spec_width(),
            final(self).spec_height() == old(self).spec_height(),
            final(self).picture() == old(self).picture(),
            old(self).presents_to(*final(self), r),
    ;

    /// Writes `text` running rightward from `(x, y)`.
    fn write(&mut self, x: u16, y: u16, text: &str, color: Color)
        ensures
            final(self).spec_width() == old(self).spec_width(),
            final(self).spec_height() == old(self).spec_height(),
            final(self).picture() == write_pic(
                old(self).picture(),
                old(self).spec_width(),
                old(self).spec_height(),
                x as int,
                y as int,
                text@,
                color,
            ),
    {
        let ghost w = self.spec_width();
        let ghost h = self.spec_height();
        let ghost start = self.picture();
        let width = self.width();
        let n = text.unicode_len();
        let mut k: usize = 0;
        while k < n
            invariant
                k <= n,
                n == text@.len(),
                w == old(self).spec_width(),
                h == old(self).spec_height(),
                start == old(self).picture(),
                width == w,
                self.spec_width() == w,
                self.spec_height() == h,
                self.picture() == write_pic(start, w, h, x as int, y as int, text@.take(k as int), color),
            decreases n - k,
        {
            let ch = text.get_char(k);
            if x >= width || k >= (width - x) as usize {
                // Every later character lands further right, off the surface.
                proof {
                    assert(write_pic(start, w, h, x as int, y as int, text@.take(k as int), color)
                        =~= write_pic(start, w, h, x as int, y as int, text@, color));
                }
                return;
            }
            let column: u16 = x + (k as u16);
            self.put(column, y, Glyph::new(ch, color));
            proof {
                assert(self.picture() =~= write_pic(
                    start,
                    w,
                    h,
                    x as int,
                    y as int,
                    text@.take(k + 1),
                    color,
                ));
            }
            k = k + 1;
        }
        proof {
            assert(text@.take(k as int) =~= text@);
        }
    }
}

/// A canvas that keeps its glyphs in memory.
///
/// Used by the tests to assert on exactly what a view drew, and by nothing else.
#[derive(Debug, PartialEq, Eq)]
pub struct TextCanvas {
    width: u16,
    height: u16,
    cells: Vec<Glyph>,
}

/// The glyph that a row-major buffer `cells`, `width` columns wide, holds for
/// `(x, y)`; blank off the surface.
pub open spec fn buffer_glyph(cells: Seq<Glyph>, width: int, height: int, x: int, y: int) -> Glyph {
    if on_surface(width, height, x, y) {
        cells[y * width + x]
    } else {
        blank_glyph()
    }
}

/// Row-major position `y * width + x` stays inside a buffer of
/// `width * height` cells whenever `(x, y)` is on the surface, and different
/// positions never share a slot.
pub proof fn lemma_buffer_index(width: int, height: int, x: int, y: int)
    requires
        on_surface(width, height, x, y),
    ensures
        0 <= y * width + x < width * height,
        y * width <= y * width + x < (y + 1) * width,
{
    assert(y * width + x < width * height) by (nonlinear_arith)
        requires
            0 <= x < width,
            0 <= y < height,
    ;
    assert(0 <= y * width) by (nonlinear_arith)
        requires
            0 <= x < width,
            0 <= y,
    ;
    assert((y + 1) * width == y * width + width) by (nonlinear_arith);
}

/// A buffer for a surface of at most `u16::MAX` by `u16::MAX` cells can be
/// counted in 32 bits.
pub proof fn lemma_buffer_size(width: int, height: int)
    requires
        0 <= width <= u16::MAX,
        0 <= height <= u16::MAX,
    ensures
        0 <= width * height < 0x1_0000_0000,
{
    assert(0 <= width * height <= 65535 * 65535) by (nonlinear_arith)
        requires
            0 <= width <= 65535,
            0 <= height <= 65535,
    ;
}

/// Distinct positions on the surface have distinct slots in the buffer.
pub proof fn lemma_buffer_index_injective(width: int, height: int, x1: int, y1: int, x2: int, y2: int)
    requires
        on_surface(width, height, x1, y1),
        on_surface(width, height, x2, y2),
        y1 * width + x1 == y2 * width + x2,
    ensures
        x1 == x2,
        y1 == y2,
{
    lemma_buffer_index(width, height, x1, y1);
    lemma_buffer_index(width, height, x2, y2);
    if y1 < y2 {
        assert((y1 + 1) * width <= y2 * width) by (nonlinear_arith)
            requires
                y1 + 1 <= y2,
                0 < width,
        ;
    } else if y2 < y1 {
        assert((y2 + 1) * width <= y1 * width) by (nonlinear_arith)
            requires
                y2 + 1 <= y1,
                0 < width,
        ;
    }
}

impl TextCanvas {
    /// The canvas keeps one glyph per cell, row by row, and is never empty.
    #[verifier::type_invariant]
    pub closed spec fn sized(self) -> bool {
        &&& self.width > 0
        &&& self.height > 0
        &&& self.cells@.len() == self.width * self.height
    }

    /// Creates a blank canvas; both dimensions must be positive.
    pub fn new(width: u16, height: u16) -> (c: TextCanvas)
        requires
            width > 0,
            height > 0,
        ensures
            c.spec_width() == width,
            c.spec_height() == height,
            c.picture() == blank_picture(),
    {
        proof {
            lemma_buffer_size(width as int, height as int);
        }
        let n: usize = width as usize * height as usize;
        let mut cells: Vec<Glyph> = Vec::new();
        let mut i: usize = 0;
        while i < n
            invariant
                i <= n,
                cells@.len() == i,
                forall|k: int| 0 <= k < i ==> cells@[k] == blank_glyph(),
            decreases n - i,
        {
            cells.push(Glyph::blank());
            i = i + 1;
        }
        let c = TextCanvas { width, height, cells };
        proof {
            assert forall|x: int, y: int| #[trigger] c.picture()(x, y) == blank_picture()(x, y) by {
                if on_surface(width as int, height as int, x, y) {
                    lemma_buffer_index(width as int, height as int, x, y);
                }
            }
            assert(c.picture() =~= blank_picture());
        }
        c
    }

    /// Where `(x, y)` is kept in the buffer, if it lies on the canvas.
    fn index(&self, x: u16, y: u16) -> (i: Option<usize>)
        ensures
            on_surface(self.width as int, self.height as int, x as int, y as int) ==> {
                &&& i is Some
                &&& i->0 as int == y as int * self.width as int + x as int
                &&& i->0 < self.cells@.len()
            },
            !on_surface(self.width as int, self.height as int, x as int, y as int) ==> i is None,
    {
        proof {
            use_type_invariant(self);
        }
        if x < self.width && y < self.height {
            proof {
                lemma_buffer_index(self.width as int, self.height as int, x as int, y as int);
                lemma_buffer_size(self.width as int, self.height as int);
            }
            Some(y as usize * self.width as usize + x as usize)
        } else {
            None
        }
    }

    /// The glyph at `(x, y)`, if it lies on the canvas.
    pub fn glyph(&self, x: u16, y: u16) -> (g: Option<Glyph>)
        ensures
            g == (if on_surface(self.spec_width(), self.spec_height(), x as int, y as int) {
                Some(self.picture()(x as int, y as int))
            } else {
                None
            }),
    {
        match self.index(x, y) {
            Some(i) => Some(self.cells[i]),
            None => None,
        }
    }

    /// Row `y` as a string: one character per column, or nothing when `y` lies
    /// below the canvas.
    pub fn row(&self, y: u16) -> (s: String)
        ensures
            s@ == row_text(self.picture(), self.spec_width(), self.spec_height(), y as int),
    {
        let mut s = String::new();
        if y >= self.height {
            return s;
        }
        let mut x: u16 = 0;
        while x < self.width
            invariant
                y < self.height,
                x <= self.width,
                s@ == row_text(self.picture(), x as int, self.spec_height(), y as int),
            decreases self.width - x,
        {
            let g = self.glyph(x, y);
            match g {
                Some(glyph) => push_char(&mut s, glyph.ch),
                None => {},
            }
            proof {
                assert(s@ =~= row_text(self.picture(), x + 1, self.spec_height(), y as int));
            }
            x = x + 1;
        }
        s
    }

    /// The whole canvas as newline-separated rows.
    pub fn to_text(&self) -> (s: String)
        ensures
            s@ == canvas_text(self.picture(), self.spec_width(), self.spec_height()),
    {
        let mut s = String::new();
        let mut y: u16 = 0;
        while y < self.height
            invariant
                y <= self.height,
                s@ == text_lines(self.picture(), self.spec_width(), self.spec_height(), y as int),
            decreases self.height - y,
        {
            if y > 0 {
                push_char(&mut s, '\n');
            }
            let line = self.row(y);
            s.append(line.as_str());
            proof {
                assert(s@ =~= text_lines(self.picture(), self.spec_width(), self.spec_height(), y + 1));
            }
            y = y + 1;
        }
        s
    }
}

/// The characters of the first `width` columns of row `y`; empty when `y`
/// lies below the picture.
pub open spec fn row_text(p: Picture, width: int, height: int, y: int) -> Seq<char> {
    if 0 <= y < height && width >= 0 {
        Seq::new(width as nat, |i: int| p(i, y).ch)
    } else {
        Seq::empty()
    }
}

/// The first `rows` rows of a picture, joined by newlines.
pub open spec fn text_lines(p: Picture, width: int, height: int, rows: int) -> Seq<char>
    decreases rows,
{
    if rows <= 0 {
        Seq::empty()
    } else if rows == 1 {
        row_text(p, width, height, 0)
    } else {
        text_lines(p, width, height, rows - 1) + seq!['\n'] + row_text(p, width, height, rows - 1)
    }
}

/// The whole picture as newline-separated rows.
pub open spec fn canvas_text(p: Picture, width: int, height: int) -> Seq<char> {
    text_lines(p, width, height, height)
}

impl Clone for TextCanvas {
    fn clone(&self) -> (c: TextCanvas)
        ensures
            c.spec_width() == self.spec_width(),
            c.spec_height() == self.spec_height(),
            c.picture() == self.picture(),
    {
        proof {
            use_type_invariant(self);
        }
        let mut cells: Vec<Glyph> = Vec::new();
        let mut i: usize = 0;
        while i < self.cells.len()
            invariant
                i <= self.cells@.len(),
                cells@ == self.cells@.take(i as int),
            decreases self.cells@.len() - i,
        {
            cells.push(self.cells[i]);
            i = i + 1;
            proof {
                assert(cells@ =~= self.cells@.take(i as int));
            }
        }
        proof {
            assert(cells@ =~= self.cells@);
        }
        let c = TextCanvas { width: self.width, height: self.height, cells };
        proof {
            assert(c.picture() =~= self.picture());
        }
        c
    }
}

impl Canvas for TextCanvas {
    /// An in-memory canvas has nothing to show: presenting always succeeds
    /// and changes nothing.
    open spec fn presents_to(&self, after: TextCanvas, r: std::io::Result<()>) -> bool {
        &&& r is Ok
        &&& after == *self
    }

    fn present(&mut self) -> (r: std::io::Result<()>) {
        Ok(())
    }

    closed spec fn spec_width(&self) -> int {
        self.width as int
    }

    closed spec fn spec_height(&self) -> int {
        self.height as int
    }

    closed spec fn picture(&self) -> Picture {
        |x: int, y: int| buffer_glyph(self.cells@, self.width as int, self.height as int, x, y)
    }

    fn width(&self) -> (w: u16) {
        self.width
    }

    fn height(&self) -> (h: u16) {
        self.height
    }

    fn put(&mut self, x: u16, y: u16, glyph: Glyph) {
        proof {
            use_type_invariant(&*self);
        }
        let w = self.width;
        let h = self.height;
        match self.index(x, y) {
            Some(i) => {
                assert(i as int == y as int * w as int + x as int);
                self.cells[i] = glyph;
                proof {
                    assert forall|a: int, b: int| #[trigger] self.picture()(a, b) == put_pic(
                        old(self).picture(),
                        w as int,
                        h as int,
                        x as int,
                        y as int,
                        glyph,
                    )(a, b) by {
                        if on_surface(w as int, h as int, a, b) {
                            lemma_buffer_index(w as int, h as int, a, b);
                            if b * w + a == i {
                                lemma_buffer_index_injective(w as int, h as int, a, b, x as int, y as int);
                            }
                        }
                    }
                    assert(self.picture() =~= put_pic(
                        old(self).picture(),
                        w as int,
                        h as int,
                        x as int,
                        y as int,
                        glyph,
                    ));
                }
            },
            None => {
                proof {
                    assert(self.picture() =~= put_pic(
                        old(self).picture(),
                        w as int,
                        h as int,
                        x as int,
                        y as int,
                        glyph,
                    ));
                }
            },
        }
    }

    fn clear(&mut self) {
        proof {
            use_type_invariant(&*self);
        }
        let n = self.cells.len();
        let mut i: usize = 0;
        while i < n
            invariant
                i <= n,
                n == self.cells@.len(),
                self.width == old(self).width,
                self.height == old(self).height,
                n == self.width * self.height,
                forall|k: int| 0 <= k < i ==> self.cells@[k] == blank_glyph(),
            decreases n - i,
        {
            self.cells[i] = Glyph::blank();
            i = i + 1;
        }
        proof {
            assert forall|a: int, b: int| #[trigger] self.picture()(a, b) == blank_picture()(a, b) by {
                if on_surface(self.width as int, self.height as int, a, b) {
                    lemma_buffer_index(self.width as int, self.height as int, a, b);
                }
            }
            assert(self.picture() =~= blank_picture());
        }
    }
}

} // verus!

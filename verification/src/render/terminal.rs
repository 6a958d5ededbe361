//! A canvas for a real terminal, redrawing only what changed.

use vstd::prelude::*;
use crate::render::canvas::{
    blank_glyph, blank_picture, buffer_glyph, lemma_buffer_index, lemma_buffer_index_injective,
    lemma_buffer_size, on_surface, put_pic, Canvas, Glyph, Picture,
};
use crate::render::color::Color;

verus! {

/// One instruction to a terminal.
#[derive(Debug, Clone, Copy, PartialEq, Eq, Structural)]
pub enum Paint {
    /// Move the cursor to a column and row.
    MoveTo(u16, u16),
    /// Draw what follows in a colour.
    SetColor(Color),
    /// Draw a character at the cursor and move right.
    Print(char),
    /// Go back to the terminal's own colour.
    ResetColor,
}

/// A glyph that never matches anything drawn, so that the cells holding it on
/// screen are all redrawn.
pub open spec fn unknown_glyph() -> Glyph {
    Glyph { ch: '\0', color: Color::Default }
}

/// The instructions for one changed cell at `index` of a buffer `width`
/// columns wide: move there, change colour unless `last` already is the
/// glyph's colour, and print.
pub open spec fn cell_paints(index: int, width: int, glyph: Glyph, last: Option<Color>) -> Seq<Paint> {
    let at = seq![Paint::MoveTo((index % width) as u16, (index / width) as u16)];
    let colored = if last == Some(glyph.color) {
        at
    } else {
        at.push(Paint::SetColor(glyph.color))
    };
    colored.push(Paint::Print(glyph.ch))
}

/// The instructions that bring cells `i..` of a screen showing `front` up to
/// `back`, in order, the colour in force being `last`.
pub open spec fn diff_from(front: Seq<Glyph>, back: Seq<Glyph>, width: int, i: int, last: Option<Color>) -> Seq<Paint>
    decreases back.len() - i,
{
    if i < 0 || i >= back.len() {
        Seq::empty()
    } else if back[i] == front[i] {
        diff_from(front, back, width, i + 1, last)
    } else {
        cell_paints(i, width, back[i], last) + diff_from(front, back, width, i + 1, Some(back[i].color))
    }
}

/// A screen already showing what was drawn needs no instructions at all: a
/// second flush with nothing drawn in between sends nothing but the colour
/// reset.
pub proof fn law_nothing_changed_nothing_sent(cells: Seq<Glyph>, width: int, i: int, last: Option<Color>)
    ensures
        diff_from(cells, cells, width, i, last) == Seq::<Paint>::empty(),
    decreases cells.len() - i,
{
    if 0 <= i < cells.len() {
        law_nothing_changed_nothing_sent(cells, width, i + 1, last);
    }
}

/// Only cells that changed are drawn: every character sent is the new glyph
/// of some cell whose glyph differs from what the screen showed.
pub proof fn law_only_changes_are_sent(front: Seq<Glyph>, back: Seq<Glyph>, width: int, i: int, last: Option<Color>)
    requires
        front.len() == back.len(),
    ensures
        forall|k: int|
            0 <= k < diff_from(front, back, width, i, last).len() && #[trigger] diff_from(front, back, width, i, last)[k] is Print
                ==> exists|j: int|
                i <= j < back.len() && back[j] != front[j] && diff_from(front, back, width, i, last)[k] == Paint::Print(
                    #[trigger] back[j].ch,
                ),
    decreases back.len() - i,
{
    if 0 <= i < back.len() {
        if back[i] == front[i] {
            law_only_changes_are_sent(front, back, width, i + 1, last);
        } else {
            let head = cell_paints(i, width, back[i], last);
            let rest = diff_from(front, back, width, i + 1, Some(back[i].color));
            law_only_changes_are_sent(front, back, width, i + 1, Some(back[i].color));
            let all = diff_from(front, back, width, i, last);
            assert(all == head + rest);
            assert forall|k: int| 0 <= k < all.len() && #[trigger] all[k] is Print implies exists|j: int|
                i <= j < back.len() && back[j] != front[j] && all[k] == Paint::Print(#[trigger] back[j].ch) by {
                if k < head.len() {
                    assert(all[k] == head[k]);
                    assert(all[k] == Paint::Print(back[i].ch));
                } else {
                    assert(all[k] == rest[k - head.len()]);
                    assert(rest[k - head.len()] is Print);
                }
            }
        }
    }
}

/// The cells of `pic` on a surface `width` by `height`, row by row.
pub open spec fn cells_of(pic: Picture, width: int, height: int) -> Seq<Glyph> {
    Seq::new((width * height) as nat, |i: int| pic(i % width, i / width))
}

/// A buffer of one glyph per cell, read as a picture, gives back its cells.
proof fn lemma_buffer_cells(cells: Seq<Glyph>, width: int, height: int)
    requires
        width > 0,
        height > 0,
        cells.len() == width * height,
    ensures
        cells_of(|x: int, y: int| buffer_glyph(cells, width, height, x, y), width, height) == cells,
{
    let pic = |x: int, y: int| buffer_glyph(cells, width, height, x, y);
    assert forall|i: int| 0 <= i < cells.len() implies #[trigger] cells_of(pic, width, height)[i] == cells[i] by {
        let x = i % width;
        let y = i / width;
        assert(0 <= x < width && 0 <= y && y * width + x == i) by (nonlinear_arith)
            requires
                width > 0,
                0 <= i,
                x == i % width,
                y == i / width,
        ;
        assert(y < height) by (nonlinear_arith)
            requires
                width > 0,
                y * width + x == i,
                0 <= x,
                i < width * height,
        ;
    }
    assert(cells_of(pic, width, height) =~= cells);
}

/// Draws onto a terminal, writing only the cells that actually changed.
///
/// A double buffer is not an optimisation detail here: repainting every cell of
/// the screen each frame makes the board flicker and the cursor crawl, which is
/// exactly the artefact a TUI is supposed to avoid. This type keeps both
/// buffers and says what to send; sending it is left to the caller.
#[derive(Debug)]
pub struct TerminalCanvas {
    width: u16,
    height: u16,
    back: Vec<Glyph>,
    front: Vec<Glyph>,
}

impl TerminalCanvas {
    /// Both buffers hold one glyph per cell, and the canvas is never empty.
    #[verifier::type_invariant]
    pub closed spec fn sized(self) -> bool {
        &&& self.width > 0
        &&& self.height > 0
        &&& self.back@.len() == self.width * self.height
        &&& self.front@.len() == self.width * self.height
    }

    /// What the terminal is believed to show, cell by cell, row by row.
    pub closed spec fn shown(self) -> Seq<Glyph> {
        self.front@
    }

    /// A buffer of `n` copies of `g`.
    fn filled(n: usize, g: Glyph) -> (v: Vec<Glyph>)
        ensures
            v@ == Seq::new(n as nat, |_i: int| g),
    {
        let mut v: Vec<Glyph> = Vec::new();
        let mut i: usize = 0;
        while i < n
            invariant
                i <= n,
                v@ == Seq::new(i as nat, |_i: int| g),
            decreases n - i,
        {
            v.push(g);
            i = i + 1;
            assert(v@ =~= Seq::new(i as nat, |_i: int| g));
        }
        v
    }

    /// Creates a canvas of the given size, both dimensions positive, believing
    /// the terminal blank.
    pub fn new(width: u16, height: u16) -> (c: TerminalCanvas)
        requires
            width > 0,
            height > 0,
        ensures
            c.spec_width() == width,
            c.spec_height() == height,
            c.picture() == blank_picture(),
            c.shown() == Seq::new((width * height) as nat, |_i: int| blank_glyph()),
    {
        proof {
            lemma_buffer_size(width as int, height as int);
        }
        let cells: usize = width as usize * height as usize;
        let c = TerminalCanvas {
            width,
            height,
            back: Self::filled(cells, Glyph::blank()),
            front: Self::filled(cells, Glyph::blank()),
        };
        proof {
            assert forall|x: int, y: int| #[trigger] c.picture()(x, y) == blank_picture()(x, y) by {
                if on_surface(width as int, height as int, x, y) {
                    lemma_buffer_index(width as int, height as int, x, y);
                }
            }
            assert(c.picture() =~= blank_picture());
        }
        c
    }

    /// Where `(x, y)` is kept in the buffers, if it lies on the canvas.
    fn index(&self, x: u16, y: u16) -> (i: Option<usize>)
        ensures
            on_surface(self.width as int, self.height as int, x as int, y as int) ==> {
                &&& i is Some
                &&& i->0 as int == y as int * self.width as int + x as int
                &&& i->0 < self.back@.len()
            },
            !on_surface(self.width as int, self.height as int, x as int, y as int) ==> i is None,
    {
        proof {
            use_type_invariant(self);
        }
        if x < self.width && y < self.height {
            proof {
                lemma_buffer_index(self.width as int, self.height as int, x as int, y as int);
                lemma_buffer_size(self.width as int, self.height as int);
            }
            Some(y as usize * self.width as usize + x as usize)
        } else {
            None
        }
    }

    /// The instructions that bring the terminal up to date with what was
    /// drawn: for each changed cell in reading order, a move, a colour change
    /// where the colour differs from the last one set, and the character; then
    /// a return to the terminal's own colour. Afterwards the terminal is
    /// believed to show exactly what was drawn.
    pub fn flush(&mut self) -> (paints: Vec<Paint>)
        ensures
            final(self).spec_width() == old(self).spec_width(),
            final(self).spec_height() == old(self).spec_height(),
            final(self).picture() == old(self).picture(),
            final(self).shown() == cells_of(old(self).picture(), old(self).spec_width(), old(self).spec_height()),
            paints@ == diff_from(
                old(self).shown(),
                cells_of(old(self).picture(), old(self).spec_width(), old(self).spec_height()),
                old(self).spec_width(),
                0,
                None,
            ).push(
                Paint::ResetColor,
            ),
    {
        proof {
            use_type_invariant(&*self);
        }
        let ghost front0 = self.front@;
        let ghost back0 = self.back@;
        let ghost w = self.width as int;
        proof {
            lemma_buffer_cells(back0, self.width as int, self.height as int);
        }
        let ghost total = diff_from(front0, back0, w, 0, None);
        let n = self.back.len();
        let width = self.width;
        let mut out: Vec<Paint> = Vec::new();
        let mut last: Option<Color> = None;
        let mut index: usize = 0;
        while index < n
            invariant
                index <= n,
                n == self.back@.len(),
                n == self.front@.len(),
                n == self.width * self.height,
                self.width == old(self).width,
                self.height == old(self).height,
                width == self.width,
                w == width,
                self.width > 0,
                self.back@ == back0,
                back0 == old(self).back@,
                front0 == old(self).front@,
                total == diff_from(front0, back0, w, 0, None),
                forall|k: int| 0 <= k < index ==> self.front@[k] == back0[k],
                forall|k: int| index <= k < n ==> self.front@[k] == front0[k],
                out@ + diff_from(front0, back0, w, index as int, last) == total,
            decreases n - index,
        {
            let glyph = self.back[index];
            if glyph == self.front[index] {
                assert(diff_from(front0, back0, w, index as int, last) == diff_from(front0, back0, w, index + 1, last));
            } else {
                let ghost before = out@;
                let ghost prev_last = last;
                proof {
                    assert(index as int / w < self.height as int) by (nonlinear_arith)
                        requires
                            0 <= index < w * self.height,
                            w > 0,
                    ;
                    assert(index as int % w < w) by (nonlinear_arith)
                        requires
                            w > 0,
                    ;
                }
                let x = (index % width as usize) as u16;
                let y = (index / width as usize) as u16;
                out.push(Paint::MoveTo(x, y));
                let same = match last {
                    Some(c) => c == glyph.color,
                    None => false,
                };
                if !same {
                    out.push(Paint::SetColor(glyph.color));
                    last = Some(glyph.color);
                }
                out.push(Paint::Print(glyph.ch));
                self.front[index] = glyph;
                last = Some(glyph.color);
                proof {
                    assert(out@ =~= before + cell_paints(index as int, w, glyph, prev_last));
                    assert(diff_from(front0, back0, w, index as int, prev_last) == cell_paints(index as int, w, glyph, prev_last)
                        + diff_from(front0, back0, w, index + 1, last));
                    assert(out@ + diff_from(front0, back0, w, index + 1, last) =~= before + diff_from(front0, back0, w, index as int, prev_last));
                }
            }
            index = index + 1;
        }
        proof {
            assert(self.front@ =~= back0);
            assert(out@ =~= total);
        }
        out.push(Paint::ResetColor);
        proof {
            assert(self.picture() =~= old(self).picture());
        }
        out
    }

    /// Forgets what is on screen, so the next flush repaints everything.
    pub fn invalidate(&mut self)
        ensures
            final(self).spec_width() == old(self).spec_width(),
            final(self).spec_height() == old(self).spec_height(),
            final(self).picture() == old(self).picture(),
            final(self).shown() == Seq::new(old(self).shown().len(), |_i: int| unknown_glyph()),
    {
        proof {
            use_type_invariant(&*self);
        }
        let n = self.front.len();
        let mut i: usize = 0;
        while i < n
            invariant
                i <= n,
                n == self.front@.len(),
                n == self.width * self.height,
                self.width == old(self).width,
                self.height == old(self).height,
                self.back@ == old(self).back@,
                self.back@.len() == n,
                forall|k: int| 0 <= k < i ==> self.front@[k] == unknown_glyph(),
            decreases n - i,
        {
            self.front[i] = Glyph::new('\0', Color::Default);
            i = i + 1;
        }
        proof {
            assert(self.front@ =~= Seq::new(old(self).shown().len(), |_i: int| unknown_glyph()));
            assert(self.picture() =~= old(self).picture());
        }
    }

    /// Resizes the canvas, discarding what was drawn and what is believed to
    /// be on screen; a size with no cells, or the current size, is ignored.
    pub fn resize(&mut self, width: u16, height: u16)
        ensures
            width == 0 || height == 0 || (width == old(self).spec_width() && height == old(self).spec_height())
                ==> *final(self) == *old(self),
            !(width == 0 || height == 0 || (width == old(self).spec_width() && height == old(self).spec_height()))
                ==> {
                &&& final(self).spec_width() == width
                &&& final(self).spec_height() == height
                &&& final(self).picture() == blank_picture()
                &&& final(self).shown() == Seq::new((width * height) as nat, |_i: int| unknown_glyph())
            },
    {
        if width == 0 || height == 0 || (width == self.width && height == self.height) {
            return;
        }
        proof {
            lemma_buffer_size(width as int, height as int);
        }
        let cells: usize = width as usize * height as usize;
        let resized = TerminalCanvas {
            width,
            height,
            back: Self::filled(cells, Glyph::blank()),
            front: Self::filled(cells, Glyph::new('\0', Color::Default)),
        };
        proof {
            assert forall|x: int, y: int| #[trigger] resized.picture()(x, y) == blank_picture()(x, y) by {
                if on_surface(width as int, height as int, x, y) {
                    lemma_buffer_index(width as int, height as int, x, y);
                }
            }
            assert(resized.picture() =~= blank_picture());
        }
        *self = resized;
    }
}

impl Canvas for TerminalCanvas {
    /// Presenting does nothing here: what must be sent is handed out by
    /// [`TerminalCanvas::flush`]. It always succeeds and changes nothing.
    open spec fn presents_to(&self, after: TerminalCanvas, r: std::io::Result<()>) -> bool {
        &&& r is Ok
        &&& after == *self
    }

    fn present(&mut self) -> (r: std::io::Result<()>) {
        Ok(())
    }

    closed spec fn spec_width(&self) -> int {
        self.width as int
    }

    closed spec fn spec_height(&self) -> int {
        self.height as int
    }

    closed spec fn picture(&self) -> Picture {
        |x: int, y: int| buffer_glyph(self.back@, self.width as int, self.height as int, x, y)
    }

    fn width(&self) -> (w: u16) {
        self.width
    }

    fn height(&self) -> (h: u16) {
        self.height
    }

    fn put(&mut self, x: u16, y: u16, glyph: Glyph) {
        proof {
            use_type_invariant(&*self);
        }
        let w = self.width;
        let h = self.height;
        match self.index(x, y) {
            Some(i) => {
                assert(i as int == y as int * w as int + x as int);
                self.back[i] = glyph;
                proof {
                    assert forall|a: int, b: int| #[trigger] self.picture()(a, b) == put_pic(
                        old(self).picture(),
                        w as int,
                        h as int,
                        x as int,
                        y as int,
                        glyph,
                    )(a, b) by {
                        if on_surface(w as int, h as int, a, b) {
                            lemma_buffer_index(w as int, h as int, a, b);
                            if b * w + a == i {
                                lemma_buffer_index_injective(w as int, h as int, a, b, x as int, y as int);
                            }
                        }
                    }
                    assert(self.picture() =~= put_pic(
                        old(self).picture(),
                        w as int,
                        h as int,
                        x as int,
                        y as int,
                        glyph,
                    ));
                }
            },
            None => {
                proof {
                    assert(self.picture() =~= put_pic(
                        old(self).picture(),
                        w as int,
                        h as int,
                        x as int,
                        y as int,
                        glyph,
                    ));
                }
            },
        }
    }

    fn clear(&mut self) {
        proof {
            use_type_invariant(&*self);
        }
        let n = self.back.len();
        let mut i: usize = 0;
        while i < n
            invariant
                i <= n,
                n == self.back@.len(),
                self.front@.len() == n,
                self.width == old(self).width,
                self.height == old(self).height,
                n == self.width * self.height,
                forall|k: int| 0 <= k < i ==> self.back@[k] == blank_glyph(),
            decreases n - i,
        {
            self.back[i] = Glyph::blank();
            i = i + 1;
        }
        proof {
            assert forall|a: int, b: int| #[trigger] self.picture()(a, b) == blank_picture()(a, b) by {
                if on_surface(self.width as int, self.height as int, a, b) {
                    lemma_buffer_index(self.width as int, self.height as int, a, b);
                }
            }
            assert(self.picture() =~= blank_picture());
        }
    }
}

} // verus!

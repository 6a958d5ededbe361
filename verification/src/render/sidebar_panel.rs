//! Running totals and the queue of upcoming pieces.

use vstd::prelude::*;
use crate::game::Snapshot;
use crate::piece::Tetromino;
use crate::render::canvas::{on_surface, write_pic, Canvas, Glyph, Picture};
use crate::text::push_char;
use crate::render::chrome::{boxed, draw_box};
use crate::render::color::{piece_color, Color};

verus! {

/// Draws the score, the progress totals and the next pieces.
#[derive(Debug, Clone, Copy)]
pub struct SidebarPanel {
    /// Column of the panel's top-left corner.
    pub x: u16,
    /// Row of the panel's top-left corner.
    pub y: u16,
}

/// The character of the decimal digit `d`.
pub open spec fn digit_char(d: int) -> char {
    (('0' as int) + d) as char
}

/// `n` written in decimal, most significant digit first, without leading
/// zeros.
pub open spec fn decimal(n: nat) -> Seq<char>
    decreases n,
{
    if n < 10 {
        seq![digit_char(n as int)]
    } else {
        decimal(n / 10) + seq![digit_char((n % 10) as int)]
    }
}

/// Ten to the power `k`.
pub open spec fn pow10(k: nat) -> nat
    decreases k,
{
    if k == 0 {
        1
    } else {
        10 * pow10((k - 1) as nat)
    }
}

/// A number below `10^k` takes at most `k` digits, and every number takes at
/// least one.
pub proof fn lemma_decimal_len(n: nat, k: nat)
    requires
        n < pow10(k),
        k > 0,
    ensures
        1 <= decimal(n).len() <= k,
    decreases k,
{
    if n >= 10 {
        if k == 1 {
            assert(pow10(1) == 10 * pow10(0));
        }
        assert(n / 10 < pow10((k - 1) as nat)) by (nonlinear_arith)
            requires
                n < 10 * pow10((k - 1) as nat),
        ;
        lemma_decimal_len(n / 10, (k - 1) as nat);
    }
}

/// Appends `n` in decimal to `s`.
fn push_decimal(s: &mut String, n: u32)
    ensures
        final(s)@ == old(s)@ + decimal(n as nat),
    decreases n,
{
    if n >= 10 {
        push_decimal(s, n / 10);
    }
    let d: u8 = (n % 10) as u8;
    push_char(s, (48u8 + d) as char);
    proof {
        assert(final(s)@ =~= old(s)@ + decimal(n as nat));
    }
}

/// `n` in decimal.
pub fn decimal_text(n: u32) -> (s: String)
    ensures
        s@ == decimal(n as nat),
{
    let mut s = String::new();
    push_decimal(&mut s, n);
    assert(s@ =~= decimal(n as nat));
    s
}

/// The number of upcoming pieces the panel lists for a queue of `len`.
pub open spec fn preview_count(len: int) -> int {
    if len < 5 {
        len
    } else {
        5
    }
}

impl SidebarPanel {
    /// Interior width of the panel, in characters.
    pub const INNER_WIDTH: u16 = 12;
    /// Total width the panel occupies, borders included.
    pub const WIDTH: u16 = 14;
    /// How many upcoming pieces are listed.
    pub const PREVIEW: usize = 5;
    /// Total height the panel occupies with its full list of upcoming pieces,
    /// borders included: the totals box, then the box of upcoming pieces.
    pub const HEIGHT: u16 = 17;

    /// Creates a panel anchored at `(x, y)`.
    pub fn new(x: u16, y: u16) -> (p: SidebarPanel)
        ensures
            p.x == x && p.y == y,
    {
        SidebarPanel { x, y }
    }

    /// The column a total's digits start at, so that the last digit sits in
    /// the panel's last interior column.
    pub open spec fn value_column(self, value: u32) -> int {
        self.x + 13 - decimal(value as nat).len()
    }

    /// `p` with `label` on interior row `row` and `value` right-aligned on the
    /// row below it.
    pub open spec fn stat_pic(self, p: Picture, width: int, height: int, row: int, label: Seq<char>, value: u32) -> Picture {
        let labelled = write_pic(p, width, height, self.x + 2, self.y + 1 + row, label, Color::Dim);
        write_pic(
            labelled,
            width,
            height,
            self.value_column(value),
            self.y + 2 + row,
            decimal(value as nat),
            Color::Default,
        )
    }

    /// Writes a labelled total on interior row `row`.
    fn stat<C: Canvas>(&self, canvas: &mut C, row: u16, label: &str, value: u32)
        requires
            row <= 6,
            self.x + 2 <= u16::MAX,
            self.value_column(value) <= u16::MAX,
            self.y + 8 <= u16::MAX,
        ensures
            final(canvas).spec_width() == old(canvas).spec_width(),
            final(canvas).spec_height() == old(canvas).spec_height(),
            final(canvas).picture() == self.stat_pic(
                old(canvas).picture(),
                old(canvas).spec_width(),
                old(canvas).spec_height(),
                row as int,
                label@,
                value,
            ),
    {
        canvas.write(self.x + 2, self.y + 1 + row, label, Color::Dim);
        let text = decimal_text(value);
        proof {
            reveal_with_fuel(pow10, 11);
            lemma_decimal_len(value as nat, 10);
        }
        let len = text.as_str().unicode_len() as u16;
        let right = Self::INNER_WIDTH + 1;
        let column = self.x + (right - len);
        canvas.write(column, self.y + 2 + row, text.as_str(), Color::Default);
    }

    /// Whether the totals, both boxes and every listed piece can be drawn
    /// without a coordinate overflowing.
    pub open spec fn fits(self, snapshot: Snapshot) -> bool {
        let count = preview_count(snapshot.next@.len() as int);
        &&& self.x + 2 <= u16::MAX
        &&& self.y + 11 <= u16::MAX
        &&& self.value_column(snapshot.stats.score) <= u16::MAX
        &&& self.value_column(snapshot.stats.lines) <= u16::MAX
        &&& self.value_column(snapshot.stats.level) <= u16::MAX
        &&& self.value_column(snapshot.stats.pieces) <= u16::MAX
        &&& count > 0 ==> self.x + 6 <= u16::MAX && self.y + 10 + count <= u16::MAX
    }

    /// `p` with the first `n` upcoming pieces listed in the box below the
    /// totals: a two-column swatch and the piece's letter, in its colour.
    pub open spec fn preview_pic(self, p: Picture, width: int, height: int, next: Seq<Tetromino>, n: int) -> Picture {
        |i: int, j: int|
            {
                let k = j - (self.y + 11);
                if 0 <= k < n && on_surface(width, height, i, j) && (i == self.x + 3 || i == self.x + 4 || i
                    == self.x + 6) {
                    Glyph {
                        ch: if i == self.x + 6 {
                            next[k].spec_letter()
                        } else {
                            '█'
                        },
                        color: piece_color(next[k]),
                    }
                } else {
                    p(i, j)
                }
            }
    }

    /// Lists the first `count` pieces of `next`.
    fn paint_preview<C: Canvas>(&self, canvas: &mut C, next: &Vec<Tetromino>, count: usize)
        requires
            count <= next@.len(),
            count > 0 ==> self.x + 6 <= u16::MAX && self.y + 10 + count <= u16::MAX,
        ensures
            final(canvas).spec_width() == old(canvas).spec_width(),
            final(canvas).spec_height() == old(canvas).spec_height(),
            final(canvas).picture() == self.preview_pic(
                old(canvas).picture(),
                old(canvas).spec_width(),
                old(canvas).spec_height(),
                next@,
                count as int,
            ),
    {
        let ghost w = canvas.spec_width();
        let ghost h = canvas.spec_height();
        let ghost start = canvas.picture();
        let mut index: usize = 0;
        while index < count
            invariant
                index <= count <= next@.len(),
                count > 0 ==> self.x + 6 <= u16::MAX && self.y + 10 + count <= u16::MAX,
                w == old(canvas).spec_width(),
                h == old(canvas).spec_height(),
                start == old(canvas).picture(),
                canvas.spec_width() == w,
                canvas.spec_height() == h,
                canvas.picture() == self.preview_pic(start, w, h, next@, index as int),
            decreases count - index,
        {
            let kind = next[index];
            let color = Color::of(kind);
            let row = self.y + 11 + index as u16;
            canvas.put(self.x + 3, row, Glyph::new('█', color));
            canvas.put(self.x + 4, row, Glyph::new('█', color));
            canvas.put(self.x + 6, row, Glyph::new(kind.letter(), color));
            assert(canvas.picture() =~= self.preview_pic(start, w, h, next@, index + 1));
            index = index + 1;
        }
    }
}

/// The totals box with score, lines, level and pieces, then the box of
/// upcoming pieces below it, at least one row tall, listing up to five of
/// them.
pub open spec fn sidebar_painted(panel: SidebarPanel, snapshot: Snapshot, width: int, height: int, before: Picture) -> Picture {
    let (x, y) = (panel.x as int, panel.y as int);
    let stats = snapshot.stats;
    let framed = boxed(before, width, height, x, y, 12, 8, "STATS"@);
    let p1 = panel.stat_pic(framed, width, height, 0, "SCORE"@, stats.score);
    let p2 = panel.stat_pic(p1, width, height, 2, "LINES"@, stats.lines);
    let p3 = panel.stat_pic(p2, width, height, 4, "LEVEL"@, stats.level);
    let p4 = panel.stat_pic(p3, width, height, 6, "PIECES"@, stats.pieces);
    let count = preview_count(snapshot.next@.len() as int);
    let next_box = boxed(p4, width, height, x, y + 10, 12, if count > 0 { count } else { 1 }, "NEXT"@);
    panel.preview_pic(next_box, width, height, snapshot.next@, count)
}

impl crate::render::view::View for SidebarPanel {
    open spec fn can_paint(&self, snapshot: Snapshot) -> bool {
        self.fits(snapshot)
    }

    open spec fn painted(&self, snapshot: Snapshot, width: int, height: int, before: Picture) -> Picture {
        sidebar_painted(*self, snapshot, width, height, before)
    }

    fn paint<C: Canvas>(&self, snapshot: &Snapshot, canvas: &mut C) {
        let stats_height: u16 = 8;
        draw_box(canvas, self.x, self.y, Self::INNER_WIDTH, stats_height, "STATS");
        self.stat(canvas, 0, "SCORE", snapshot.stats.score);
        self.stat(canvas, 2, "LINES", snapshot.stats.lines);
        self.stat(canvas, 4, "LEVEL", snapshot.stats.level);
        self.stat(canvas, 6, "PIECES", snapshot.stats.pieces);

        let next_y = self.y + stats_height + 2;
        let preview = if snapshot.next.len() < Self::PREVIEW {
            snapshot.next.len()
        } else {
            Self::PREVIEW
        };
        let next_height: u16 = if preview > 0 {
            preview as u16
        } else {
            1
        };
        draw_box(canvas, self.x, next_y, Self::INNER_WIDTH, next_height, "NEXT");
        self.paint_preview(canvas, &snapshot.next, preview);
    }
}

/// Whether `p` shows the decimal digits of `value` on row `row`, in the
/// default colour, ending just before column `end`, wherever they land on a
/// surface `width` by `height`.
pub open spec fn shows_digits(p: Picture, width: int, height: int, end: int, row: int, value: u32) -> bool {
    forall|t: int|
        0 <= t < decimal(value as nat).len() && on_surface(width, height, end - decimal(value as nat).len() + t, row)
            ==> #[trigger] p(end - decimal(value as nat).len() + t, row) == (Glyph {
            ch: decimal(value as nat)[t],
            color: Color::Default,
        })
}

/// Whether `p` shows `text` on row `row` from column `x` in `color`,
/// wherever it lands on a surface `width` by `height`.
pub open spec fn shows_text(p: Picture, width: int, height: int, x: int, row: int, text: Seq<char>, color: Color) -> bool {
    forall|t: int|
        0 <= t < text.len() && on_surface(width, height, x + t, row) ==> #[trigger] p(x + t, row) == (Glyph {
            ch: text[t],
            color,
        })
}

/// Each total is shown under its own label, its digits ending at the panel's
/// last interior column: the score on the row below SCORE, the lines below
/// LINES, the level below LEVEL and the pieces below PIECES.
pub proof fn law_totals_under_their_labels(
    panel: SidebarPanel,
    snapshot: Snapshot,
    width: int,
    height: int,
    before: Picture,
)
    requires
        panel.fits(snapshot),
    ensures
        shows_digits(sidebar_painted(panel, snapshot, width, height, before), width, height, panel.x + 13, panel.y + 2, snapshot.stats.score),
        shows_digits(sidebar_painted(panel, snapshot, width, height, before), width, height, panel.x + 13, panel.y + 4, snapshot.stats.lines),
        shows_digits(sidebar_painted(panel, snapshot, width, height, before), width, height, panel.x + 13, panel.y + 6, snapshot.stats.level),
        shows_digits(sidebar_painted(panel, snapshot, width, height, before), width, height, panel.x + 13, panel.y + 8, snapshot.stats.pieces),
        shows_text(sidebar_painted(panel, snapshot, width, height, before), width, height, panel.x + 2, panel.y + 1, "SCORE"@, Color::Dim),
        shows_text(sidebar_painted(panel, snapshot, width, height, before), width, height, panel.x + 2, panel.y + 3, "LINES"@, Color::Dim),
        shows_text(sidebar_painted(panel, snapshot, width, height, before), width, height, panel.x + 2, panel.y + 5, "LEVEL"@, Color::Dim),
        shows_text(sidebar_painted(panel, snapshot, width, height, before), width, height, panel.x + 2, panel.y + 7, "PIECES"@, Color::Dim),
{
    let (x, y) = (panel.x as int, panel.y as int);
    let stats = snapshot.stats;
    let framed = boxed(before, width, height, x, y, 12, 8, "STATS"@);
    let p1 = panel.stat_pic(framed, width, height, 0, "SCORE"@, stats.score);
    let p2 = panel.stat_pic(p1, width, height, 2, "LINES"@, stats.lines);
    let p3 = panel.stat_pic(p2, width, height, 4, "LEVEL"@, stats.level);
    let p4 = panel.stat_pic(p3, width, height, 6, "PIECES"@, stats.pieces);
    let count = preview_count(snapshot.next@.len() as int);
    let next_box = boxed(p4, width, height, x, y + 10, 12, if count > 0 { count } else { 1 }, "NEXT"@);
    let last = panel.preview_pic(next_box, width, height, snapshot.next@, count);
    assert(sidebar_painted(panel, snapshot, width, height, before) == last);
    reveal_strlit("NEXT");
    assert forall|i: int, j: int| j < y + 10 implies #[trigger] last(i, j) == p4(i, j) by {
        assert(next_box(i, j) == p4(i, j));
    }
    assert forall|t: int| 0 <= t < "SCORE"@.len() && on_surface(width, height, x + 2 + t, y + 1)
        implies #[trigger] last(x + 2 + t, y + 1) == (Glyph { ch: "SCORE"@[t], color: Color::Dim }) by {
        assert(last(x + 2 + t, y + 1) == p4(x + 2 + t, y + 1));
    }
    assert forall|t: int| 0 <= t < "LINES"@.len() && on_surface(width, height, x + 2 + t, y + 3)
        implies #[trigger] last(x + 2 + t, y + 3) == (Glyph { ch: "LINES"@[t], color: Color::Dim }) by {
        assert(last(x + 2 + t, y + 3) == p4(x + 2 + t, y + 3));
    }
    assert forall|t: int| 0 <= t < "LEVEL"@.len() && on_surface(width, height, x + 2 + t, y + 5)
        implies #[trigger] last(x + 2 + t, y + 5) == (Glyph { ch: "LEVEL"@[t], color: Color::Dim }) by {
        assert(last(x + 2 + t, y + 5) == p4(x + 2 + t, y + 5));
    }
    assert forall|t: int| 0 <= t < "PIECES"@.len() && on_surface(width, height, x + 2 + t, y + 7)
        implies #[trigger] last(x + 2 + t, y + 7) == (Glyph { ch: "PIECES"@[t], color: Color::Dim }) by {
        assert(last(x + 2 + t, y + 7) == p4(x + 2 + t, y + 7));
    }
    let v = stats.score;
    assert forall|t: int| 0 <= t < decimal(v as nat).len() && on_surface(width, height, x + 13 - decimal(v as nat).len() + t, y + 2)
        implies #[trigger] last(x + 13 - decimal(v as nat).len() + t, y + 2) == (Glyph { ch: decimal(v as nat)[t], color: Color::Default }) by {
        let i = x + 13 - decimal(v as nat).len() + t;
        assert(p1(i, y + 2) == Glyph { ch: decimal(v as nat)[t], color: Color::Default });
        assert(last(i, y + 2) == p4(i, y + 2));
    }
    let v = stats.lines;
    assert forall|t: int| 0 <= t < decimal(v as nat).len() && on_surface(width, height, x + 13 - decimal(v as nat).len() + t, y + 4)
        implies #[trigger] last(x + 13 - decimal(v as nat).len() + t, y + 4) == (Glyph { ch: decimal(v as nat)[t], color: Color::Default }) by {
        let i = x + 13 - decimal(v as nat).len() + t;
        assert(p2(i, y + 4) == Glyph { ch: decimal(v as nat)[t], color: Color::Default });
        assert(last(i, y + 4) == p4(i, y + 4));
    }
    let v = stats.level;
    assert forall|t: int| 0 <= t < decimal(v as nat).len() && on_surface(width, height, x + 13 - decimal(v as nat).len() + t, y + 6)
        implies #[trigger] last(x + 13 - decimal(v as nat).len() + t, y + 6) == (Glyph { ch: decimal(v as nat)[t], color: Color::Default }) by {
        let i = x + 13 - decimal(v as nat).len() + t;
        assert(p3(i, y + 6) == Glyph { ch: decimal(v as nat)[t], color: Color::Default });
        assert(last(i, y + 6) == p4(i, y + 6));
    }
    let v = stats.pieces;
    assert forall|t: int| 0 <= t < decimal(v as nat).len() && on_surface(width, height, x + 13 - decimal(v as nat).len() + t, y + 8)
        implies #[trigger] last(x + 13 - decimal(v as nat).len() + t, y + 8) == (Glyph { ch: decimal(v as nat)[t], color: Color::Default }) by {
        let i = x + 13 - decimal(v as nat).len() + t;
        assert(p4(i, y + 8) == Glyph { ch: decimal(v as nat)[t], color: Color::Default });
        assert(last(i, y + 8) == p4(i, y + 8));
    }
}

} // verus!

//! The [`Shape`] abstraction: anything with a four-cell, rotatable footprint.

use vstd::prelude::*;
use crate::geometry::{Offset, Point, Rotation};

verus! {

/// The smaller of two integers.
pub open spec fn min2(a: int, b: int) -> int {
    if a <= b { a } else { b }
}

/// The larger of two integers.
pub open spec fn max2(a: int, b: int) -> int {
    if a >= b { a } else { b }
}

/// The smallest column among four offsets.
pub open spec fn min_dx(c: Seq<Offset>) -> int {
    min2(min2(c[0].dx as int, c[1].dx as int), min2(c[2].dx as int, c[3].dx as int))
}

/// The largest column among four offsets.
pub open spec fn max_dx(c: Seq<Offset>) -> int {
    max2(max2(c[0].dx as int, c[1].dx as int), max2(c[2].dx as int, c[3].dx as int))
}

/// The four offsets anchored at `origin`.
pub open spec fn anchored(origin: Point, c: Seq<Offset>) -> Seq<Point> {
    seq![origin.plus(c[0]), origin.plus(c[1]), origin.plus(c[2]), origin.plus(c[3])]
}

/// Whether every offset of `c` can be added to `origin` without overflow.
pub open spec fn can_anchor(origin: Point, c: Seq<Offset>) -> bool {
    forall|i: int| 0 <= i < 4 ==> #[trigger] origin.can_shift(c[i])
}

/// A rotatable footprint made of exactly four cells.
///
/// Implementors describe their cells in local coordinates inside a square
/// bounding box, which is what makes rotation a pure function of the piece
/// rather than of the board it sits on.
pub trait Shape {
    /// The side of the bounding box.
    open spec fn spec_side(&self) -> int {
        arbitrary()
    }

    /// The four cells at `rotation`.
    open spec fn spec_cells(&self, rotation: Rotation) -> Seq<Offset> {
        arbitrary()
    }

    /// The side length of the square this shape rotates inside.
    fn bounding_box(&self) -> (s: i16)
        ensures
            s == self.spec_side(),
    ;

    /// The four cells this shape occupies at `rotation`, as offsets from the
    /// top-left corner of its bounding box.
    fn cells(&self, rotation: Rotation) -> (c: [Offset; 4])
        ensures
            c@ == self.spec_cells(rotation),
    ;

    /// The four absolute cells this shape occupies when its bounding box is
    /// anchored at `origin`.
    fn cells_at(&self, origin: Point, rotation: Rotation) -> (p: [Point; 4])
        requires
            can_anchor(origin, self.spec_cells(rotation)),
        ensures
            p@ == anchored(origin, self.spec_cells(rotation)),
    {
        let c = self.cells(rotation);
        assert(origin.can_shift(c@[0]) && origin.can_shift(c@[1]));
        assert(origin.can_shift(c@[2]) && origin.can_shift(c@[3]));
        let p = [origin.shifted(c[0]), origin.shifted(c[1]), origin.shifted(c[2]), origin.shifted(c[3])];
        assert(p@ =~= anchored(origin, c@));
        p
    }

    /// The number of columns actually covered at `rotation`, ignoring the empty
    /// margins of the bounding box.
    fn width(&self, rotation: Rotation) -> (w: i16)
        requires
            crate::geometry::point::fits_i16(
                max_dx(self.spec_cells(rotation)) - min_dx(self.spec_cells(rotation)) + 1,
            ),
        ensures
            w == max_dx(self.spec_cells(rotation)) - min_dx(self.spec_cells(rotation)) + 1,
    {
        let c = self.cells(rotation);
        let mut min = c[0].dx;
        let mut max = c[0].dx;
        if c[1].dx < min { min = c[1].dx; }
        if c[1].dx > max { max = c[1].dx; }
        if c[2].dx < min { min = c[2].dx; }
        if c[2].dx > max { max = c[2].dx; }
        if c[3].dx < min { min = c[3].dx; }
        if c[3].dx > max { max = c[3].dx; }
        max - min + 1
    }

    /// The offset of the leftmost occupied column at `rotation`.
    fn left_margin(&self, rotation: Rotation) -> (m: i16)
        ensures
            m == min_dx(self.spec_cells(rotation)),
    {
        let c = self.cells(rotation);
        let mut min = c[0].dx;
        if c[1].dx < min { min = c[1].dx; }
        if c[2].dx < min { min = c[2].dx; }
        if c[3].dx < min { min = c[3].dx; }
        min
    }
}

} // verus!

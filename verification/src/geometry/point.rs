//! Integer lattice points and translations on the playfield.

use vstd::prelude::*;
use std::ops::{Add, Neg, Sub};
use vstd::std_specs::ops::{AddSpecImpl, NegSpecImpl, SubSpecImpl};

verus! {

/// Whether `v` is representable as an `i16`.
pub open spec fn fits_i16(v: int) -> bool {
    i16::MIN <= v <= i16::MAX
}

/// A signed cell coordinate on the playfield.
///
/// `x` grows to the right, `y` grows downward, matching the way a terminal
/// addresses its rows. Coordinates are signed: a piece may sit partly above the
/// visible field while it spawns, and rotation kicks probe positions that are
/// briefly out of bounds.
#[derive(Debug, Clone, Copy, PartialEq, Eq, Hash, PartialOrd, Ord, Default, Structural)]
pub struct Point {
    /// Column index, increasing rightward.
    pub x: i16,
    /// Row index, increasing downward.
    pub y: i16,
}

/// A relative displacement between two [`Point`]s.
///
/// Kept distinct from `Point` so that the type system rejects adding two
/// absolute positions together, which is never meaningful here.
#[derive(Debug, Clone, Copy, PartialEq, Eq, Hash, Default, Structural)]
pub struct Offset {
    /// Horizontal displacement, positive rightward.
    pub dx: i16,
    /// Vertical displacement, positive downward.
    pub dy: i16,
}

impl Point {
    /// The origin, `(0, 0)`.
    pub fn origin() -> (p: Point)
        ensures
            p.x == 0,
            p.y == 0,
    {
        Point { x: 0, y: 0 }
    }

    /// Whether shifting by `offset` stays representable.
    pub open spec fn can_shift(self, offset: Offset) -> bool {
        fits_i16(self.x + offset.dx) && fits_i16(self.y + offset.dy)
    }

    /// This point shifted by `offset`, in mathematical terms.
    pub open spec fn plus(self, offset: Offset) -> Point {
        Point { x: (self.x + offset.dx) as i16, y: (self.y + offset.dy) as i16 }
    }

    /// The offset that carries `rhs` onto this point.
    pub open spec fn minus(self, rhs: Point) -> Offset {
        Offset { dx: (self.x - rhs.x) as i16, dy: (self.y - rhs.y) as i16 }
    }

    /// Builds a point from a column and a row.
    pub fn new(x: i16, y: i16) -> (p: Point)
        ensures
            p.x == x,
            p.y == y,
    {
        Point { x, y }
    }

    /// Returns this point shifted by `offset`.
    pub fn shifted(self, offset: Offset) -> (p: Point)
        requires
            self.can_shift(offset),
        ensures
            p == self.plus(offset),
            p.x == self.x + offset.dx,
            p.y == self.y + offset.dy,
    {
        Point::new(self.x + offset.dx, self.y + offset.dy)
    }
}

impl Offset {
    /// No displacement at all.
    pub fn zero() -> (o: Offset)
        ensures
            o == (Offset { dx: 0, dy: 0 }),
    {
        Offset { dx: 0, dy: 0 }
    }

    /// One cell to the left.
    pub fn left() -> (o: Offset)
        ensures
            o == (Offset { dx: -1i16, dy: 0 }),
    {
        Offset { dx: -1, dy: 0 }
    }

    /// One cell to the right.
    pub fn right() -> (o: Offset)
        ensures
            o == (Offset { dx: 1, dy: 0 }),
    {
        Offset { dx: 1, dy: 0 }
    }

    /// One cell downward.
    pub fn down() -> (o: Offset)
        ensures
            o == (Offset { dx: 0, dy: 1 }),
    {
        Offset { dx: 0, dy: 1 }
    }

    /// The opposite displacement.
    pub open spec fn negated(self) -> Offset {
        Offset { dx: (-self.dx) as i16, dy: (-self.dy) as i16 }
    }

    /// Builds an offset from its two components.
    pub fn new(dx: i16, dy: i16) -> (o: Offset)
        ensures
            o.dx == dx,
            o.dy == dy,
    {
        Offset { dx, dy }
    }
}

impl Add<Offset> for Point {
    type Output = Point;

    fn add(self, rhs: Offset) -> (p: Point) {
        self.shifted(rhs)
    }
}

impl AddSpecImpl<Offset> for Point {
    open spec fn obeys_add_spec() -> bool {
        true
    }

    open spec fn add_req(self, rhs: Offset) -> bool {
        self.can_shift(rhs)
    }

    open spec fn add_spec(self, rhs: Offset) -> Point {
        self.plus(rhs)
    }
}

impl Sub for Point {
    type Output = Offset;

    fn sub(self, rhs: Point) -> (o: Offset) {
        Offset::new(self.x - rhs.x, self.y - rhs.y)
    }
}

impl SubSpecImpl for Point {
    open spec fn obeys_sub_spec() -> bool {
        true
    }

    open spec fn sub_req(self, rhs: Point) -> bool {
        fits_i16(self.x - rhs.x) && fits_i16(self.y - rhs.y)
    }

    open spec fn sub_spec(self, rhs: Point) -> Offset {
        self.minus(rhs)
    }
}

impl Neg for Offset {
    type Output = Offset;

    fn neg(self) -> (o: Offset) {
        Offset::new(-self.dx, -self.dy)
    }
}

impl NegSpecImpl for Offset {
    open spec fn obeys_neg_spec() -> bool {
        true
    }

    open spec fn neg_req(self) -> bool {
        self.dx != i16::MIN && self.dy != i16::MIN
    }

    open spec fn neg_spec(self) -> Offset {
        self.negated()
    }
}

impl Add for Offset {
    type Output = Offset;

    fn add(self, rhs: Offset) -> (o: Offset) {
        Offset::new(self.dx + rhs.dx, self.dy + rhs.dy)
    }
}

impl AddSpecImpl for Offset {
    open spec fn obeys_add_spec() -> bool {
        true
    }

    open spec fn add_req(self, rhs: Offset) -> bool {
        fits_i16(self.dx + rhs.dx) && fits_i16(self.dy + rhs.dy)
    }

    open spec fn add_spec(self, rhs: Offset) -> Offset {
        Offset { dx: (self.dx + rhs.dx) as i16, dy: (self.dy + rhs.dy) as i16 }
    }
}

/// Subtracting two points gives the offset that carries the second back onto
/// the first: `b + (a - b) == a`.
pub proof fn lemma_difference_reconstructs(a: Point, b: Point)
    requires
        fits_i16(a.x - b.x),
        fits_i16(a.y - b.y),
    ensures
        b.can_shift(a.minus(b)),
        b.plus(a.minus(b)) == a,
{
}

/// Shifting by an offset and then by its negation returns to the start.
pub proof fn lemma_negation_undoes_shift(p: Point, o: Offset)
    requires
        p.can_shift(o),
        o.dx != i16::MIN,
        o.dy != i16::MIN,
    ensures
        p.plus(o).can_shift(o.negated()),
        p.plus(o).plus(o.negated()) == p,
{
}

} // verus!

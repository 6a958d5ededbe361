//! A tetromino placed on the playfield, with pure moves that return candidates.

use vstd::prelude::*;
use crate::geometry::{Offset, Point, Rotation, Spin};
use crate::piece::kind::{in_box, Tetromino};
use crate::piece::shape::{anchored, can_anchor, max2, Shape};

verus! {

/// A tetromino at a concrete position and orientation.
///
/// Every move returns a *new* piece instead of mutating this one. The engine
/// builds a candidate, asks the board whether it fits, and keeps it only if it
/// does, so an illegal move costs nothing to try and can never leave a piece
/// half-moved.
#[derive(Debug, Clone, Copy, PartialEq, Eq, Structural)]
pub struct ActivePiece {
    /// Which tetromino this is.
    pub kind: Tetromino,
    /// Top-left corner of the piece's bounding box, in playfield coordinates.
    pub origin: Point,
    /// The current orientation.
    pub rotation: Rotation,
}

impl ActivePiece {
    /// Whether the cells of this piece can be computed without overflow: the
    /// bounding box never reaches past the largest coordinate.
    pub open spec fn placeable(self) -> bool {
        self.origin.x <= i16::MAX - 3 && self.origin.y <= i16::MAX - 3
    }

    /// The four playfield cells this piece occupies.
    pub open spec fn spec_cells(self) -> Seq<Point> {
        anchored(self.origin, self.kind.footprint(self.rotation))
    }

    /// The same piece translated by `offset`.
    pub open spec fn moved(self, offset: Offset) -> ActivePiece {
        ActivePiece { origin: self.origin.plus(offset), ..self }
    }

    /// The same piece turned by `spin`.
    pub open spec fn turned_by(self, spin: Spin) -> ActivePiece {
        ActivePiece { rotation: spin.spec_apply(self.rotation), ..self }
    }

    /// The lowest row among the piece's cells.
    pub open spec fn spec_lowest_row(self) -> int {
        let c = self.spec_cells();
        max2(max2(c[0].y as int, c[1].y as int), max2(c[2].y as int, c[3].y as int))
    }

    /// Each cell of a placeable piece lies within its bounding box from the origin.
    pub proof fn lemma_cells_in_box(self)
        ensures
            can_anchor(self.origin, self.kind.footprint(self.rotation)) || !self.placeable(),
            forall|i: int| 0 <= i < 4 ==> {
                &&& self.origin.x <= #[trigger] self.kind.footprint(self.rotation)[i].dx + self.origin.x
                    < self.origin.x + self.kind.side()
                &&& self.origin.y <= self.kind.footprint(self.rotation)[i].dy + self.origin.y
                    < self.origin.y + self.kind.side()
            },
            self.kind.footprint(self.rotation).len() == 4,
    {
        self.kind.lemma_footprint_well_formed(self.rotation);
        let c = self.kind.footprint(self.rotation);
        assert(in_box(self.kind.side(), c));
    }

    /// Creates a piece at `origin` in its spawn orientation.
    pub fn new(kind: Tetromino, origin: Point) -> (p: ActivePiece)
        ensures
            p == (ActivePiece { kind, origin, rotation: Rotation::Spawn }),
    {
        ActivePiece { kind, origin, rotation: Rotation::Spawn }
    }

    /// Whether every cell of this piece can be computed: each lies within the
    /// coordinates a point can hold.
    pub open spec fn computable(self) -> bool {
        can_anchor(self.origin, self.kind.footprint(self.rotation))
    }

    /// A piece whose bounding box stays within the coordinates has computable
    /// cells.
    pub proof fn lemma_placeable_computable(self)
        requires
            self.placeable(),
        ensures
            self.computable(),
    {
        self.lemma_cells_in_box();
    }

    /// The four playfield cells this piece currently occupies.
    pub fn cells(&self) -> (c: [Point; 4])
        requires
            self.computable(),
        ensures
            c@ == self.spec_cells(),
    {
        self.kind.cells_at(self.origin, self.rotation)
    }

    /// The same piece translated by `offset`.
    pub fn shifted(&self, offset: Offset) -> (p: ActivePiece)
        requires
            self.origin.can_shift(offset),
        ensures
            p == self.moved(offset),
    {
        ActivePiece { kind: self.kind, origin: self.origin.shifted(offset), rotation: self.rotation }
    }

    /// Shifting a piece translates every one of its cells by the same amount,
    /// and leaves its kind and orientation alone.
    pub proof fn law_shift_moves_every_cell(self, offset: Offset)
        requires
            self.origin.can_shift(offset),
            self.computable(),
            self.moved(offset).computable(),
        ensures
            self.moved(offset).kind == self.kind,
            self.moved(offset).rotation == self.rotation,
            forall|i: int| 0 <= i < 4 ==>
                #[trigger] self.moved(offset).spec_cells()[i] == self.spec_cells()[i].plus(offset),
    {
        let f = self.kind.footprint(self.rotation);
        assert forall|i: int| 0 <= i < 4 implies
            #[trigger] self.moved(offset).spec_cells()[i] == self.spec_cells()[i].plus(offset) by {
            assert(self.origin.can_shift(f[i]));
            assert(self.moved(offset).origin.can_shift(f[i]));
        }
    }

    /// The same piece turned one quarter in the given direction.
    pub fn spun(&self, spin: Spin) -> (p: ActivePiece)
        ensures
            p == self.turned_by(spin),
    {
        ActivePiece { kind: self.kind, origin: self.origin, rotation: spin.apply(self.rotation) }
    }

    /// The lowest row this piece occupies.
    pub fn lowest_row(&self) -> (r: i16)
        requires
            self.computable(),
        ensures
            r == self.spec_lowest_row(),
    {
        let c = self.cells();
        let mut max = c[0].y;
        if c[1].y > max { max = c[1].y; }
        if c[2].y > max { max = c[2].y; }
        if c[3].y > max { max = c[3].y; }
        max
    }
}

} // verus!

//! The seven tetrominoes and the geometry that distinguishes them.

use vstd::prelude::*;
use crate::geometry::{Offset, Rotation};
use crate::piece::shape::Shape;

verus! {

/// One of the seven standard tetrominoes, named after the letter it resembles.
#[derive(Debug, Clone, Copy, PartialEq, Eq, Hash, PartialOrd, Ord, Structural)]
pub enum Tetromino {
    /// The four-in-a-row piece, the only one that clears four rows at once.
    I,
    /// The square, the only piece rotation does not move.
    O,
    /// The three-wide piece with a centre nub.
    T,
    /// The right-handed skew piece.
    S,
    /// The left-handed skew piece.
    Z,
    /// The three-wide piece with a left shoulder.
    J,
    /// The three-wide piece with a right shoulder.
    L,
}

/// An offset with literal components, for the spawn tables.
pub open spec fn off(dx: i16, dy: i16) -> Offset {
    Offset { dx, dy }
}

/// One clockwise quarter turn of a cell inside a box of side `side`.
pub open spec fn turn_cell(side: int, o: Offset) -> Offset {
    Offset { dx: (side - 1 - o.dy) as i16, dy: o.dx }
}

/// Every cell of `c` turned once.
pub open spec fn turn_all(side: int, c: Seq<Offset>) -> Seq<Offset> {
    c.map_values(|o: Offset| turn_cell(side, o))
}

/// `c` after `n` clockwise quarter turns inside a box of side `side`.
pub open spec fn turned(side: int, c: Seq<Offset>, n: nat) -> Seq<Offset>
    decreases n,
{
    if n == 0 {
        c
    } else {
        turn_all(side, turned(side, c, (n - 1) as nat))
    }
}

/// Whether every cell of `c` lies inside the box `0..side` on both axes.
pub open spec fn in_box(side: int, c: Seq<Offset>) -> bool {
    forall|i: int| #![trigger c[i]] 0 <= i < c.len() ==> 0 <= c[i].dx < side && 0 <= c[i].dy < side
}

/// Whether the cells of `c` are pairwise distinct.
pub open spec fn distinct(c: Seq<Offset>) -> bool {
    forall|i: int, j: int| 0 <= i < j < c.len() ==> c[i] != c[j]
}

impl Tetromino {
    /// The single letter conventionally used to name this piece.
    pub open spec fn spec_letter(self) -> char {
        match self {
            Tetromino::I => 'I',
            Tetromino::O => 'O',
            Tetromino::T => 'T',
            Tetromino::S => 'S',
            Tetromino::Z => 'Z',
            Tetromino::J => 'J',
            Tetromino::L => 'L',
        }
    }

    /// The side of this piece's bounding box.
    pub open spec fn side(self) -> int {
        match self {
            Tetromino::I => 4,
            Tetromino::O => 2,
            _ => 3,
        }
    }

    /// The cells this piece occupies in its spawn orientation.
    pub open spec fn spawn_seq(self) -> Seq<Offset> {
        match self {
            Tetromino::I => seq![off(0, 1), off(1, 1), off(2, 1), off(3, 1)],
            Tetromino::O => seq![off(0, 0), off(1, 0), off(0, 1), off(1, 1)],
            Tetromino::T => seq![off(1, 0), off(0, 1), off(1, 1), off(2, 1)],
            Tetromino::S => seq![off(1, 0), off(2, 0), off(0, 1), off(1, 1)],
            Tetromino::Z => seq![off(0, 0), off(1, 0), off(1, 1), off(2, 1)],
            Tetromino::J => seq![off(0, 0), off(0, 1), off(1, 1), off(2, 1)],
            Tetromino::L => seq![off(2, 0), off(0, 1), off(1, 1), off(2, 1)],
        }
    }

    /// The cells this piece occupies at `rotation`.
    pub open spec fn footprint(self, rotation: Rotation) -> Seq<Offset> {
        turned(self.side(), self.spawn_seq(), rotation.turns() as nat)
    }

    /// Every tetromino, in the canonical order used to seed a shuffle bag.
    pub const ALL: [Tetromino; 7] = [
        Tetromino::I,
        Tetromino::O,
        Tetromino::T,
        Tetromino::S,
        Tetromino::Z,
        Tetromino::J,
        Tetromino::L,
    ];

    /// The single letter conventionally used to name this piece.
    pub fn letter(self) -> (c: char)
        ensures
            c == self.spec_letter(),
    {
        match self {
            Tetromino::I => 'I',
            Tetromino::O => 'O',
            Tetromino::T => 'T',
            Tetromino::S => 'S',
            Tetromino::Z => 'Z',
            Tetromino::J => 'J',
            Tetromino::L => 'L',
        }
    }

    /// The side of the bounding box, as a number.
    fn side_len(self) -> (s: i16)
        ensures
            s == self.side(),
    {
        match self {
            Tetromino::I => 4,
            Tetromino::O => 2,
            _ => 3,
        }
    }

    /// The cells this piece occupies in its spawn orientation, expressed as
    /// offsets inside its own bounding box.
    fn spawn_cells(self) -> (c: [Offset; 4])
        ensures
            c@ == self.spawn_seq(),
    {
        let c = match self {
            Tetromino::I => [Offset::new(0, 1), Offset::new(1, 1), Offset::new(2, 1), Offset::new(3, 1)],
            Tetromino::O => [Offset::new(0, 0), Offset::new(1, 0), Offset::new(0, 1), Offset::new(1, 1)],
            Tetromino::T => [Offset::new(1, 0), Offset::new(0, 1), Offset::new(1, 1), Offset::new(2, 1)],
            Tetromino::S => [Offset::new(1, 0), Offset::new(2, 0), Offset::new(0, 1), Offset::new(1, 1)],
            Tetromino::Z => [Offset::new(0, 0), Offset::new(1, 0), Offset::new(1, 1), Offset::new(2, 1)],
            Tetromino::J => [Offset::new(0, 0), Offset::new(0, 1), Offset::new(1, 1), Offset::new(2, 1)],
            Tetromino::L => [Offset::new(2, 0), Offset::new(0, 1), Offset::new(1, 1), Offset::new(2, 1)],
        };
        assert(c@ =~= self.spawn_seq());
        c
    }
}

/// Turning keeps every cell inside the bounding box.
pub proof fn lemma_turn_in_box(side: int, c: Seq<Offset>, n: nat)
    requires
        1 <= side <= 4,
        in_box(side, c),
    ensures
        in_box(side, turned(side, c, n)),
        turned(side, c, n).len() == c.len(),
    decreases n,
{
    if n > 0 {
        lemma_turn_in_box(side, c, (n - 1) as nat);
    }
}

/// Turning never merges two distinct cells.
pub proof fn lemma_turn_distinct(side: int, c: Seq<Offset>, n: nat)
    requires
        1 <= side <= 4,
        in_box(side, c),
        distinct(c),
    ensures
        distinct(turned(side, c, n)),
    decreases n,
{
    if n > 0 {
        lemma_turn_distinct(side, c, (n - 1) as nat);
        lemma_turn_in_box(side, c, (n - 1) as nat);
        let prev = turned(side, c, (n - 1) as nat);
        assert forall|i: int, j: int| 0 <= i < j < prev.len() implies
            turn_cell(side, prev[i]) != turn_cell(side, prev[j]) by {
            assert(prev[i] != prev[j]);
        }
    }
}

/// Four quarter turns bring every cell inside the box back where it was.
pub proof fn lemma_four_turns_restore(side: int, c: Seq<Offset>)
    requires
        1 <= side <= 4,
        in_box(side, c),
    ensures
        turned(side, c, 4) == c,
{
    lemma_turn_in_box(side, c, 4);
    assert(turned(side, c, 4) =~= c) by {
        reveal_with_fuel(turned, 5);
    }
}

impl Tetromino {
    /// The spawn cells lie in the box and are distinct.
    pub proof fn lemma_spawn_well_formed(self)
        ensures
            self.spawn_seq().len() == 4,
            in_box(self.side(), self.spawn_seq()),
            distinct(self.spawn_seq()),
    {
    }

    /// At every rotation a tetromino occupies exactly four distinct cells, all
    /// inside its own bounding box.
    pub proof fn lemma_footprint_well_formed(self, rotation: Rotation)
        ensures
            self.footprint(rotation).len() == 4,
            in_box(self.side(), self.footprint(rotation)),
            distinct(self.footprint(rotation)),
    {
        self.lemma_spawn_well_formed();
        lemma_turn_in_box(self.side(), self.spawn_seq(), rotation.turns() as nat);
        lemma_turn_distinct(self.side(), self.spawn_seq(), rotation.turns() as nat);
    }
}

impl Shape for Tetromino {
    open spec fn spec_side(&self) -> int {
        self.side()
    }

    open spec fn spec_cells(&self, rotation: Rotation) -> Seq<Offset> {
        self.footprint(rotation)
    }

    fn bounding_box(&self) -> (s: i16) {
        self.side_len()
    }

    fn cells(&self, rotation: Rotation) -> (c: [Offset; 4]) {
        let side = self.side_len();
        let mut cells = self.spawn_cells();
        let turns = rotation.quarter_turns();
        let mut k: u8 = 0;
        proof {
            self.lemma_spawn_well_formed();
        }
        while k < turns
            invariant
                k <= turns,
                turns == rotation.turns(),
                side == self.side(),
                1 <= side <= 4,
                cells@ == turned(side as int, self.spawn_seq(), k as nat),
                in_box(side as int, cells@),
                cells@.len() == 4,
            decreases turns - k,
        {
            let a = cells[0];
            let b = cells[1];
            let c = cells[2];
            let d = cells[3];
            assert(0 <= cells@[0].dy < side && 0 <= cells@[1].dy < side);
            assert(0 <= cells@[2].dy < side && 0 <= cells@[3].dy < side);
            assert(0 <= cells@[0].dx < side && 0 <= cells@[1].dx < side);
            assert(0 <= cells@[2].dx < side && 0 <= cells@[3].dx < side);
            let next = [
                Offset::new(side - 1 - a.dy, a.dx),
                Offset::new(side - 1 - b.dy, b.dx),
                Offset::new(side - 1 - c.dy, c.dx),
                Offset::new(side - 1 - d.dy, d.dx),
            ];
            assert(next@ =~= turn_all(side as int, cells@));
            cells = next;
            k = k + 1;
            proof {
                lemma_turn_in_box(side as int, self.spawn_seq(), k as nat);
            }
        }
        cells
    }
}

impl Tetromino {
    /// One clockwise quarter turn moves each cell of the footprint the same way
    /// inside the bounding box, whatever the orientation it starts from.
    pub proof fn law_clockwise_turns_each_cell(self, rotation: Rotation)
        ensures
            self.footprint(crate::geometry::Spin::Clockwise.spec_apply(rotation)) == turn_all(
                self.side(),
                self.footprint(rotation),
            ),
    {
        self.lemma_spawn_well_formed();
        if rotation == Rotation::Left {
            lemma_four_turns_restore(self.side(), self.spawn_seq());
            assert(turned(self.side(), self.spawn_seq(), 4) == turn_all(
                self.side(),
                turned(self.side(), self.spawn_seq(), 3),
            ));
        } else {
            assert(turned(self.side(), self.spawn_seq(), (rotation.turns() + 1) as nat) == turn_all(
                self.side(),
                turned(self.side(), self.spawn_seq(), rotation.turns() as nat),
            ));
        }
    }
}

/// Whether `c` and `d` hold the same cells, in whatever order.
pub open spec fn same_cells(c: Seq<Offset>, d: Seq<Offset>) -> bool {
    forall|o: Offset| c.contains(o) == d.contains(o)
}

/// A sequence of four cells holds exactly those four.
proof fn lemma_four_cells(c: Seq<Offset>, o: Offset)
    requires
        c.len() == 4,
    ensures
        c.contains(o) <==> (o == c[0] || o == c[1] || o == c[2] || o == c[3]),
{
    if o == c[0] {
        assert(c[0] == o);
    } else if o == c[1] {
        assert(c[1] == o);
    } else if o == c[2] {
        assert(c[2] == o);
    } else if o == c[3] {
        assert(c[3] == o);
    }
}

impl Tetromino {
    /// Only the O piece occupies the same cells in all four orientations;
    /// every other piece changes shape within its box at the first turn.
    pub proof fn law_only_o_turns_in_place(self)
        ensures
            (forall|r: Rotation| same_cells(#[trigger] self.footprint(r), self.footprint(Rotation::Spawn)))
                <==> self == Tetromino::O,
    {
        let side = self.side();
        let s0 = self.spawn_seq();
        let s1 = turn_all(side, s0);
        assert(self.footprint(Rotation::Spawn) == s0);
        assert(self.footprint(Rotation::Right) == s1) by {
            assert(turned(side, s0, 1) == turn_all(side, turned(side, s0, 0)));
        }
        if self == Tetromino::O {
            let s2 = turn_all(side, s1);
            let s3 = turn_all(side, s2);
            assert(s1 =~= seq![off(1, 0), off(1, 1), off(0, 0), off(0, 1)]);
            assert(s2 =~= seq![off(1, 1), off(0, 1), off(1, 0), off(0, 0)]);
            assert(s3 =~= seq![off(0, 1), off(0, 0), off(1, 1), off(1, 0)]);
            assert(turned(side, s0, 2) == s2) by {
                assert(turned(side, s0, 2) == turn_all(side, turned(side, s0, 1)));
                assert(turned(side, s0, 1) == turn_all(side, turned(side, s0, 0)));
            }
            assert(turned(side, s0, 3) == s3) by {
                assert(turned(side, s0, 3) == turn_all(side, turned(side, s0, 2)));
                assert(turned(side, s0, 2) == turn_all(side, turned(side, s0, 1)));
                assert(turned(side, s0, 1) == turn_all(side, turned(side, s0, 0)));
            }
            assert forall|r: Rotation| same_cells(#[trigger] self.footprint(r), self.footprint(Rotation::Spawn)) by {
                let f = self.footprint(r);
                assert(f == s0 || f == s1 || f == s2 || f == s3);
                assert forall|o: Offset| f.contains(o) == s0.contains(o) by {
                    lemma_four_cells(f, o);
                    lemma_four_cells(s0, o);
                }
            }
        } else {
            let o = match self {
                Tetromino::I => off(2, 0),
                Tetromino::T => off(1, 2),
                Tetromino::S => off(2, 2),
                Tetromino::Z => off(2, 0),
                Tetromino::J => off(2, 0),
                _ => off(2, 2),
            };
            assert(s0.len() == 4);
            lemma_four_cells(s1, o);
            lemma_four_cells(s0, o);
            assert(s1.contains(o));
            assert(!s0.contains(o));
            assert(!same_cells(self.footprint(Rotation::Right), self.footprint(Rotation::Spawn)));
        }
    }
}

} // verus!

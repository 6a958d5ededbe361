//! What to try when a rotation does not fit where it stands.

use vstd::prelude::*;
use crate::geometry::Offset;

verus! {

/// Supplies the translations to attempt after a rotation is blocked.
///
/// Without kicks a piece cannot turn while resting against a wall or the stack.
/// The candidates are tried in order and the first that fits wins, so ordering
/// is the rule: nearer offsets must come first or pieces teleport.
pub trait KickTable {
    /// The candidates, in priority order.
    spec fn spec_candidates(&self) -> Seq<Offset>;

    /// Translations to try, in priority order. The first is conventionally the
    /// zero offset, meaning "rotate in place".
    fn candidates(&self) -> (c: Vec<Offset>)
        ensures
            c@ == self.spec_candidates(),
    ;
}

/// An offset with literal components.
pub open spec fn kick(dx: int, dy: int) -> Offset {
    Offset { dx: dx as i16, dy: dy as i16 }
}

/// The table of [`SimpleKicks`]: in place, then sideways, then up.
pub open spec fn simple_kick_table() -> Seq<Offset> {
    seq![kick(0, 0), kick(-1, 0), kick(1, 0), kick(0, -1), kick(-2, 0), kick(2, 0), kick(-1, -1)]
}

/// How far an offset moves a piece, counting both axes.
pub open spec fn kick_distance(o: Offset) -> int {
    (if o.dx < 0 { -o.dx } else { o.dx as int }) + (if o.dy < 0 { -o.dy } else { o.dy as int })
}

/// A compact symmetric kick table: in place, then sideways, then up.
#[derive(Debug, Clone, Copy, Default)]
pub struct SimpleKicks;

impl KickTable for SimpleKicks {
    open spec fn spec_candidates(&self) -> Seq<Offset> {
        simple_kick_table()
    }

    fn candidates(&self) -> (c: Vec<Offset>) {
        let mut c: Vec<Offset> = Vec::new();
        c.push(Offset::new(0, 0));
        c.push(Offset::new(-1, 0));
        c.push(Offset::new(1, 0));
        c.push(Offset::new(0, -1));
        c.push(Offset::new(-2, 0));
        c.push(Offset::new(2, 0));
        c.push(Offset::new(-1, -1));
        assert(c@ =~= simple_kick_table());
        c
    }
}

/// The simple table tries rotating in place first, offers a way off both walls,
/// is ordered by distance, never pushes a piece downward and never repeats a
/// position.
pub proof fn lemma_simple_kicks_shape()
    ensures
        simple_kick_table()[0] == kick(0, 0),
        simple_kick_table().contains(kick(-1, 0)),
        simple_kick_table().contains(kick(1, 0)),
        forall|i: int, j: int|
            0 <= i <= j < 7 ==> kick_distance(simple_kick_table()[i]) <= kick_distance(
                simple_kick_table()[j],
            ),
        forall|i: int| 0 <= i < 7 ==> #[trigger] simple_kick_table()[i].dy <= 0,
        forall|i: int, j: int| 0 <= i < j < 7 ==> simple_kick_table()[i] != simple_kick_table()[j],
{
    let t = simple_kick_table();
    assert(t[1] == kick(-1, 0));
    assert(t[2] == kick(1, 0));
}

/// The simple table offers exactly these translations, in this order: in
/// place, one column left, one column right, one row straight up, two columns
/// left, two columns right, and last up and to the left.
pub proof fn law_simple_kicks_in_order()
    ensures
        SimpleKicks.spec_candidates() == seq![
            Offset { dx: 0, dy: 0 },
            Offset { dx: -1i16, dy: 0 },
            Offset { dx: 1, dy: 0 },
            Offset { dx: 0, dy: -1i16 },
            Offset { dx: -2i16, dy: 0 },
            Offset { dx: 2, dy: 0 },
            Offset { dx: -1i16, dy: -1i16 },
        ],
{
    assert(SimpleKicks.spec_candidates() =~= seq![
        Offset { dx: 0, dy: 0 },
        Offset { dx: -1i16, dy: 0 },
        Offset { dx: 1, dy: 0 },
        Offset { dx: 0, dy: -1i16 },
        Offset { dx: -2i16, dy: 0 },
        Offset { dx: 2, dy: 0 },
        Offset { dx: -1i16, dy: -1i16 },
    ]);
}

} // verus!

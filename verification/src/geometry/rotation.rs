//! The four orientations a tetromino can occupy.

use vstd::prelude::*;

verus! {

/// A tetromino orientation, named after the number of clockwise quarter turns
/// applied to its spawn state.
///
/// Rotation is a cyclic group of order four, so [`Rotation::clockwise`] and
/// [`Rotation::counter_clockwise`] are total: every orientation has a successor
/// and a predecessor, and four turns in either direction return to the start.
#[derive(Debug, Clone, Copy, PartialEq, Eq, Hash, Default, PartialOrd, Ord, Structural)]
pub enum Rotation {
    /// The orientation a piece spawns in.
    #[default]
    Spawn,
    /// One quarter turn clockwise from spawn.
    Right,
    /// Two quarter turns from spawn, upside down.
    Half,
    /// One quarter turn counter-clockwise from spawn.
    Left,
}

/// The direction of a quarter turn.
///
/// Input maps a key to a `Spin`; the piece layer applies it. Keeping the
/// direction a value means a rotation can be stored, replayed and tested like
/// any other command.
#[derive(Debug, Clone, Copy, PartialEq, Eq, Hash, Structural)]
pub enum Spin {
    /// A quarter turn clockwise.
    Clockwise,
    /// A quarter turn counter-clockwise.
    CounterClockwise,
}

/// The orientation reached after `n` clockwise quarter turns from spawn.
pub open spec fn rotation_of_turns(n: int) -> Rotation {
    let k = n % 4;
    if k == 0 {
        Rotation::Spawn
    } else if k == 1 {
        Rotation::Right
    } else if k == 2 {
        Rotation::Half
    } else {
        Rotation::Left
    }
}

impl Rotation {
    /// Every orientation, in clockwise order starting at [`Rotation::Spawn`].
    pub const ALL: [Rotation; 4] = [Rotation::Spawn, Rotation::Right, Rotation::Half, Rotation::Left];

    /// Clockwise quarter turns from spawn, as a number in `0..4`.
    pub open spec fn turns(self) -> int {
        match self {
            Rotation::Spawn => 0,
            Rotation::Right => 1,
            Rotation::Half => 2,
            Rotation::Left => 3,
        }
    }

    /// Returns the orientation one quarter turn clockwise.
    pub fn clockwise(self) -> (r: Rotation)
        ensures
            r == rotation_of_turns(self.turns() + 1),
    {
        match self {
            Rotation::Spawn => Rotation::Right,
            Rotation::Right => Rotation::Half,
            Rotation::Half => Rotation::Left,
            Rotation::Left => Rotation::Spawn,
        }
    }

    /// Returns the orientation one quarter turn counter-clockwise.
    pub fn counter_clockwise(self) -> (r: Rotation)
        ensures
            r == rotation_of_turns(self.turns() + 3),
    {
        match self {
            Rotation::Spawn => Rotation::Left,
            Rotation::Right => Rotation::Spawn,
            Rotation::Half => Rotation::Right,
            Rotation::Left => Rotation::Half,
        }
    }

    /// Returns how many clockwise quarter turns separate this orientation from
    /// [`Rotation::Spawn`].
    pub fn quarter_turns(self) -> (n: u8)
        ensures
            n == self.turns(),
            n < 4,
    {
        match self {
            Rotation::Spawn => 0,
            Rotation::Right => 1,
            Rotation::Half => 2,
            Rotation::Left => 3,
        }
    }
}

impl Spin {
    /// The orientation this spin turns `rotation` into.
    pub open spec fn spec_apply(self, rotation: Rotation) -> Rotation {
        match self {
            Spin::Clockwise => rotation_of_turns(rotation.turns() + 1),
            Spin::CounterClockwise => rotation_of_turns(rotation.turns() + 3),
        }
    }

    /// The spin that undoes this one.
    pub open spec fn spec_reversed(self) -> Spin {
        match self {
            Spin::Clockwise => Spin::CounterClockwise,
            Spin::CounterClockwise => Spin::Clockwise,
        }
    }

    /// Applies this spin to `rotation`.
    pub fn apply(self, rotation: Rotation) -> (r: Rotation)
        ensures
            r == self.spec_apply(rotation),
    {
        match self {
            Spin::Clockwise => rotation.clockwise(),
            Spin::CounterClockwise => rotation.counter_clockwise(),
        }
    }

    /// The spin that undoes this one.
    pub fn reversed(self) -> (s: Spin)
        ensures
            s == self.spec_reversed(),
    {
        match self {
            Spin::Clockwise => Spin::CounterClockwise,
            Spin::CounterClockwise => Spin::Clockwise,
        }
    }
}

/// The number of turns of the orientation reached after `n` turns is `n` modulo four.
pub proof fn lemma_turns_of_rotation(n: int)
    ensures
        rotation_of_turns(n).turns() == n % 4,
{
}

/// Four clockwise quarter turns return every orientation to where it started.
pub proof fn lemma_four_turns_identity(r: Rotation)
    ensures
        rotation_of_turns(
            rotation_of_turns(
                rotation_of_turns(rotation_of_turns(r.turns() + 1).turns() + 1).turns() + 1,
            ).turns() + 1,
        ) == r,
{
}

/// A counter-clockwise turn undoes a clockwise one, and the reverse of any spin
/// undoes it: a rejected rotation can always be taken back.
pub proof fn lemma_spin_reverse_cancels(spin: Spin, r: Rotation)
    ensures
        spin.spec_reversed().spec_apply(spin.spec_apply(r)) == r,
        Spin::CounterClockwise.spec_apply(Spin::Clockwise.spec_apply(r)) == r,
{
}

/// The two directions always lead to different orientations.
pub proof fn lemma_directions_differ(r: Rotation)
    ensures
        Spin::Clockwise.spec_apply(r) != Spin::CounterClockwise.spec_apply(r),
{
}

} // verus!

//! The key hints shown beneath the playfield.

use vstd::prelude::*;
use crate::game::Snapshot;
use crate::render::canvas::{write_pic, Canvas, Picture};
use crate::render::color::Color;

verus! {

/// Draws a one-line reminder of the controls.
#[derive(Debug, Clone, Copy)]
pub struct HelpPanel {
    /// Column of the hint line.
    pub x: u16,
    /// Row of the hint line.
    pub y: u16,
}

impl HelpPanel {
    /// The hint text, kept in one place so it cannot drift from the key map.
    pub const HINT: &'static str = "←→ move  ↑/z turn  ↓ soft  space drop  p pause  r restart  q quit";

    /// Creates a hint line at `(x, y)`.
    pub fn new(x: u16, y: u16) -> (p: HelpPanel)
        ensures
            p.x == x && p.y == y,
    {
        HelpPanel { x, y }
    }

    /// How many columns the hint needs.
    pub fn width() -> (w: u16)
        ensures
            w == Self::HINT@.len(),
            w == 65,
    {
        proof {
            reveal_strlit("←→ move  ↑/z turn  ↓ soft  space drop  p pause  r restart  q quit");
        }
        let n = Self::HINT.unicode_len();
        if n <= u16::MAX as usize {
            n as u16
        } else {
            u16::MAX
        }
    }
}

impl crate::render::view::View for HelpPanel {
    open spec fn can_paint(&self, snapshot: Snapshot) -> bool {
        true
    }

    /// The hint, dimmed, whatever the state of the game.
    open spec fn painted(&self, snapshot: Snapshot, width: int, height: int, before: Picture) -> Picture {
        write_pic(before, width, height, self.x as int, self.y as int, Self::HINT@, Color::Dim)
    }

    fn paint<C: Canvas>(&self, snapshot: &Snapshot, canvas: &mut C) {
        canvas.write(self.x, self.y, Self::HINT, Color::Dim);
    }
}

/// The hints do not depend on the state of the game: any two snapshots are
/// painted alike.
pub proof fn law_hints_ignore_the_game(panel: HelpPanel, a: Snapshot, b: Snapshot, width: int, height: int, before: Picture)
    ensures
        crate::render::view::View::painted(&panel, a, width, height, before)
            == crate::render::view::View::painted(&panel, b, width, height, before),
{
}

} // verus!

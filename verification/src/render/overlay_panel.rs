//! The banner shown when play is suspended or finished.

use vstd::prelude::*;
use crate::game::{Phase, Snapshot};
use crate::render::canvas::{write_pic, Canvas, Picture};
use crate::render::color::Color;

verus! {

/// Draws a centred banner over the playfield when the game is not running.
///
/// Nothing is drawn while play continues, so this view can always be composed
/// last without having to ask whether it applies.
#[derive(Debug, Clone, Copy)]
pub struct OverlayPanel {
    /// Column of the region the banner is centred in.
    pub x: u16,
    /// Row of the region the banner is centred in.
    pub y: u16,
    /// Width of that region.
    pub width: u16,
    /// Height of that region.
    pub height: u16,
}

/// The banner for `phase`: a title, a hint on how to go on, and the title's
/// colour; none while the game is being played.
pub open spec fn banner(phase: Phase) -> Option<(Seq<char>, Seq<char>, Color)> {
    match phase {
        Phase::Playing => None,
        Phase::Paused => Some(("PAUSED"@, "p to resume"@, Color::Yellow)),
        Phase::Over => Some(("GAME OVER"@, "r to restart"@, Color::Red)),
    }
}

impl OverlayPanel {
    /// Creates a banner centred in the given region.
    pub fn new(x: u16, y: u16, width: u16, height: u16) -> (p: OverlayPanel)
        ensures
            p == (OverlayPanel { x, y, width, height }),
    {
        OverlayPanel { x, y, width, height }
    }

    /// The banner shown for `phase`, if any: title, hint and the title's colour.
    pub fn message(phase: Phase) -> (m: Option<(&'static str, &'static str, Color)>)
        ensures
            match m {
                None => banner(phase) is None,
                Some((title, hint, color)) => banner(phase) == Some((title@, hint@, color)),
            },
    {
        match phase {
            Phase::Playing => None,
            Phase::Paused => Some(("PAUSED", "p to resume", Color::Yellow)),
            Phase::Over => Some(("GAME OVER", "r to restart", Color::Red)),
        }
    }

    /// The column at which `text` starts when centred in the region.
    pub open spec fn spec_centred(self, text: Seq<char>) -> int {
        let len: int = if text.len() <= u16::MAX { text.len() as int } else { self.width as int };
        self.x + (if len >= self.width { 0 } else { self.width - len }) / 2
    }

    /// The row the banner's title is written on.
    pub open spec fn title_row(self) -> int {
        self.y + self.height / 2
    }

    fn centred(&self, text: &str) -> (c: u16)
        requires
            self.spec_centred(text@) <= u16::MAX,
        ensures
            c == self.spec_centred(text@),
    {
        let n = text.unicode_len();
        let len: u16 = if n <= u16::MAX as usize {
            n as u16
        } else {
            self.width
        };
        self.x + self.width.saturating_sub(len) / 2
    }
}

impl crate::render::view::View for OverlayPanel {
    /// Both lines of the banner, when there is one, start and sit at
    /// addressable positions.
    open spec fn can_paint(&self, snapshot: Snapshot) -> bool {
        match banner(snapshot.phase) {
            None => true,
            Some((title, hint, color)) => {
                &&& self.title_row() + 1 <= u16::MAX
                &&& self.spec_centred(title) <= u16::MAX
                &&& self.spec_centred(hint) <= u16::MAX
            },
        }
    }

    /// Nothing while playing; otherwise the title in its colour, with the
    /// dimmed hint on the row below it, each centred in the region.
    open spec fn painted(&self, snapshot: Snapshot, width: int, height: int, before: Picture) -> Picture {
        match banner(snapshot.phase) {
            None => before,
            Some((title, hint, color)) => {
                let row = self.title_row();
                let with_title = write_pic(before, width, height, self.spec_centred(title), row, title, color);
                write_pic(with_title, width, height, self.spec_centred(hint), row + 1, hint, Color::Dim)
            },
        }
    }

    fn paint<C: Canvas>(&self, snapshot: &Snapshot, canvas: &mut C) {
        match Self::message(snapshot.phase) {
            None => {},
            Some((title, hint, color)) => {
                let row = self.y + self.height / 2;
                let title_at = self.centred(title);
                canvas.write(title_at, row, title, color);
                let hint_at = self.centred(hint);
                canvas.write(hint_at, row + 1, hint, Color::Dim);
            },
        }
    }
}

/// Nothing is drawn while the game is being played, so the banner can always
/// be painted last.
pub proof fn law_no_banner_while_playing(panel: OverlayPanel, snapshot: Snapshot, width: int, height: int, before: Picture)
    requires
        snapshot.phase == Phase::Playing,
    ensures
        crate::render::view::View::painted(&panel, snapshot, width, height, before) == before,
{
}

} // verus!

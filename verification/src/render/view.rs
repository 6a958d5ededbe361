//! The [`View`] abstraction shared by every panel.

use vstd::prelude::*;
use crate::game::Snapshot;
use crate::render::canvas::{Canvas, Picture};
use vstd::view::View as _;

verus! {

/// Something that can draw a game snapshot onto a canvas.
///
/// Views are pure painters: they read a snapshot and write glyphs, holding no
/// state and owning no terminal. Composing a screen is therefore a matter of
/// listing views, and testing one is a matter of painting it onto a
/// [`crate::render::canvas::TextCanvas`] and reading the result back.
pub trait View {
    /// Whether every position this view computes from `snapshot` can be
    /// addressed on a canvas.
    open spec fn can_paint(&self, snapshot: Snapshot) -> bool {
        true
    }

    /// What painting `snapshot` makes of the picture `before` on a canvas
    /// `width` by `height`.
    open spec fn painted(&self, snapshot: Snapshot, width: int, height: int, before: Picture) -> Picture {
        arbitrary()
    }

    /// Draws `snapshot` onto `canvas`.
    fn paint<C: Canvas>(&self, snapshot: &Snapshot, canvas: &mut C)
        requires
            self.can_paint(*snapshot),
        ensures
            final(canvas).spec_width() == old(canvas).spec_width(),
            final(canvas).spec_height() == old(canvas).spec_height(),
            final(canvas).picture() == self.painted(
                *snapshot,
                old(canvas).spec_width(),
                old(canvas).spec_height(),
                old(canvas).picture(),
            ),
    ;
}

/// The picture after painting `views[0]`, then `views[1]`, and so on up to
/// (but not including) `views[n]`.
pub open spec fn painted_in_order<V: View>(
    views: Seq<V>,
    n: int,
    snapshot: Snapshot,
    width: int,
    height: int,
    before: Picture,
) -> Picture
    decreases n,
{
    if n <= 0 {
        before
    } else {
        views[n - 1].painted(
            snapshot,
            width,
            height,
            painted_in_order(views, n - 1, snapshot, width, height, before),
        )
    }
}

impl<'a, V: View> View for &'a V {
    open spec fn can_paint(&self, snapshot: Snapshot) -> bool {
        (**self).can_paint(snapshot)
    }

    open spec fn painted(&self, snapshot: Snapshot, width: int, height: int, before: Picture) -> Picture {
        (**self).painted(snapshot, width, height, before)
    }

    fn paint<C: Canvas>(&self, snapshot: &Snapshot, canvas: &mut C) {
        (**self).paint(snapshot, canvas);
    }
}

impl<V: View> View for Vec<V> {
    open spec fn can_paint(&self, snapshot: Snapshot) -> bool {
        forall|i: int| 0 <= i < self@.len() ==> #[trigger] self@[i].can_paint(snapshot)
    }

    /// The views are painted in order, so later ones win where they overlap.
    open spec fn painted(&self, snapshot: Snapshot, width: int, height: int, before: Picture) -> Picture {
        painted_in_order(self@, self@.len() as int, snapshot, width, height, before)
    }

    fn paint<C: Canvas>(&self, snapshot: &Snapshot, canvas: &mut C) {
        let ghost w = canvas.spec_width();
        let ghost h = canvas.spec_height();
        let ghost start = canvas.picture();
        let mut i: usize = 0;
        while i < self.len()
            invariant
                i <= self@.len(),
                self.can_paint(*snapshot),
                w == old(canvas).spec_width(),
                h == old(canvas).spec_height(),
                start == old(canvas).picture(),
                canvas.spec_width() == w,
                canvas.spec_height() == h,
                canvas.picture() == painted_in_order(self@, i as int, *snapshot, w, h, start),
            decreases self@.len() - i,
        {
            assert(self@[i as int].can_paint(*snapshot));
            self[i].paint(snapshot, canvas);
            i = i + 1;
        }
    }
}

} // verus!

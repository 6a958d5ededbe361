//! The game loop that ties input, time and rendering together.

use vstd::prelude::*;
use std::time::Duration;
use crate::board::Playfield;
use crate::game::engine::{spawn_column, spawn_point, Engine};
use crate::game::laws::{
    in_play, law_apply_keeps_board_size, law_apply_keeps_piece_in_play, law_tick_keeps_board_size,
    law_tick_keeps_piece_in_play, lemma_landed_fits_or_stays,
};
use crate::game::{Action, Clock, Snapshot};
use crate::game::engine::lemma_landed_below;
use crate::input::InputSource;
use crate::piece::ActivePiece;
use crate::render::canvas::{blank_picture, Canvas};
use crate::render::screen::{layout, layout_fits, screen_painted, Screen};
use crate::render::sidebar_panel::{lemma_decimal_len, pow10};
use crate::render::view::View as _;
use crate::rules::RuleSet;
use crate::time::{duration_from_nanos, nanos_of};

verus! {

/// Whether the loop should keep going.
#[derive(Debug, Clone, Copy, PartialEq, Eq, Structural)]
pub enum Flow {
    /// Run another frame.
    Continue,
    /// Leave the game.
    Quit,
}

/// Whether a screen for a board `columns` wide has room for every panel.
pub open spec fn screen_room(columns: int) -> bool {
    2 * columns + 16 <= u16::MAX
}

/// Whether `after` is `before` one frame later: the action taken, if any, then
/// `delta` nanoseconds of time.
pub open spec fn frame_advances<R: RuleSet>(before: Engine<R>, action: Option<Action>, delta: int, after: Engine<R>) -> bool {
    exists|mid: Engine<R>|
        #![trigger mid.ticks_into(delta, after)]
        (match action {
            Some(a) => before.applies(a, mid),
            None => mid == before,
        }) && mid.ticks_into(delta, after)
}

/// Whether `canvas` is what presenting a canvas showing the same picture
/// turned into, with the outcome `r`.
pub open spec fn presented<C: Canvas>(canvas: C, r: std::io::Result<()>) -> bool {
    exists|shown: C| #[trigger] shown.presents_to(canvas, r) && shown.picture() == canvas.picture()
}

/// What a frame hands back once its canvas was presented with the outcome
/// `shown`: go on, or the error.
pub open spec fn flow_after(shown: std::io::Result<()>) -> std::io::Result<Flow> {
    match shown {
        Ok(_) => Ok(Flow::Continue),
        Err(e) => Err(e),
    }
}

/// Every square of a piece that fits on `field`, or that sits at its spawn
/// point, can be drawn by the standard layout of a board with room for it.
proof fn lemma_piece_drawable(field: crate::board::grid::FieldView, p: ActivePiece)
    requires
        0 < field.width <= i16::MAX,
        0 < field.height <= i16::MAX,
        screen_room(field.width),
        p.placeable(),
        field.fits(p) || (p.origin == spawn_point(field.width, p.kind) && p.rotation == crate::geometry::Rotation::Spawn),
    ensures
        layout(field.width, field.height).board.piece_fits(p),
{
    let panel = layout(field.width, field.height).board;
    p.lemma_cells_in_box();
    assert forall|k: int| 0 <= k < 4 implies panel.square_fits(#[trigger] p.spec_cells()[k]) by {
        let c = p.spec_cells()[k];
        let o = p.kind.footprint(p.rotation)[k];
        assert(c == p.origin.plus(o));
        if field.fits(p) {
            assert(field.free_at(p.spec_cells()[k]));
        } else {
            assert(spawn_column(field.width, p.kind.side()) <= field.width / 2);
        }
    }
}

/// The standard layout can draw any snapshot of a game whose piece is in play,
/// on a board with room for the sidebar.
pub proof fn lemma_layout_paints<R: RuleSet>(e: Engine<R>, shot: Snapshot)
    requires
        e.wf(),
        in_play(e),
        e.board_of().wf(),
        screen_room(e.board_of().cols()),
        e.shows(shot),
    ensures
        layout(e.board_of().cols(), e.board_of().lines()).can_paint(shot),
{
    let f = e.field();
    let s = layout(e.board_of().cols(), e.board_of().lines());
    assert(shot.board.field() == f);
    lemma_piece_drawable(f, e.piece());
    lemma_landed_below(f, e.piece());
    lemma_landed_fits_or_stays(f, e.piece());
    if f.landed_from(e.piece()) != e.piece() {
        lemma_piece_drawable(f, f.landed_from(e.piece()));
    }
    reveal_with_fuel(pow10, 11);
    lemma_decimal_len(shot.stats.score as nat, 10);
    lemma_decimal_len(shot.stats.lines as nat, 10);
    lemma_decimal_len(shot.stats.level as nat, 10);
    lemma_decimal_len(shot.stats.pieces as nat, 10);
    assert(s.sidebar.can_paint(shot));
    assert(s.overlay.can_paint(shot));
    assert(s.board.can_paint(shot));
}

/// Drives a game: read intent, advance time, draw.
///
/// Everything it touches is a trait — the input source, the canvas and the
/// clock — so the identical loop that runs in a terminal also runs in a test
/// with a scripted input, an in-memory canvas and a clock the test controls.
pub struct GameLoop<R: RuleSet, I: InputSource, C: Canvas, K: Clock> {
    engine: Engine<R>,
    input: I,
    canvas: C,
    /// Where elapsed time comes from.
    pub clock: K,
    screen: Screen,
    frame: Duration,
}

impl<R: RuleSet, I: InputSource, C: Canvas, K: Clock> GameLoop<R, I, C, K> {
    /// Roughly sixty frames a second: how long one frame waits for input, in
    /// milliseconds.
    pub const FRAME_MILLIS: u64 = 16;

    /// The game being driven.
    pub closed spec fn engine_of(self) -> Engine<R> {
        self.engine
    }

    /// Where actions come from.
    pub closed spec fn input_of(self) -> I {
        self.input
    }

    /// Where elapsed time comes from.
    pub closed spec fn clock_of(self) -> K {
        self.clock
    }

    /// The surface being drawn to.
    pub closed spec fn canvas_of(self) -> C {
        self.canvas
    }

    /// The layout frames are drawn with.
    pub closed spec fn screen_of(self) -> Screen {
        self.screen
    }

    /// How long each frame waits for input.
    pub closed spec fn frame_of(self) -> Duration {
        self.frame
    }

    /// The loop's own consistency: a consistent game whose piece is in play,
    /// laid out for its board.
    pub closed spec fn wf(self) -> bool {
        &&& self.engine.wf()
        &&& in_play(self.engine)
        &&& self.engine.board_of().wf()
        &&& layout_fits(self.engine.board_of().cols(), self.engine.board_of().lines())
        &&& self.screen == layout(self.engine.board_of().cols(), self.engine.board_of().lines())
        &&& nanos_of(self.frame) == 16_000_000
    }

    /// Whether the board is narrow enough for the sidebar to be drawn beside
    /// it.
    pub open spec fn has_room(self) -> bool {
        screen_room(self.engine_of().board_of().cols())
    }

    /// Whether `after` is this loop with the game drawn afresh on the canvas,
    /// which was then presented with the outcome `r`, and nothing else
    /// changed.
    pub open spec fn redraws_into(self, after: Self, r: std::io::Result<()>) -> bool {
        &&& after.engine_of() == self.engine_of()
        &&& after.input_of() == self.input_of()
        &&& after.clock_of() == self.clock_of()
        &&& after.screen_of() == self.screen_of()
        &&& after.frame_of() == self.frame_of()
        &&& after.canvas_of().spec_width() == self.canvas_of().spec_width()
        &&& after.canvas_of().spec_height() == self.canvas_of().spec_height()
        &&& after.displayed()
        &&& presented(after.canvas_of(), r)
    }

    /// Whether `after`, with the result `r`, is this loop once `action` has
    /// been read, if one was, leaving the input source aside.
    ///
    /// Quitting leaves the game, the canvas and the clock untouched. Otherwise
    /// the clock ticks once, the game takes the action and then the time the
    /// tick reported, and the canvas shows the game as it then stands, having
    /// been presented: the frame goes on if that succeeded, and hands back its
    /// error otherwise.
    pub open spec fn answers(self, action: Option<Action>, after: Self, r: std::io::Result<Flow>) -> bool {
        &&& after.screen_of() == self.screen_of()
        &&& after.frame_of() == self.frame_of()
        &&& if action == Some(Action::Quit) {
            &&& r matches Ok(Flow::Quit)
            &&& after.engine_of() == self.engine_of()
            &&& after.canvas_of() == self.canvas_of()
            &&& after.clock_of() == self.clock_of()
        } else {
            &&& exists|d: Duration|
                #[trigger] self.clock_of().ticks_to(after.clock_of(), d)
                    && frame_advances(self.engine_of(), action, nanos_of(d), after.engine_of())
            &&& after.canvas_of().spec_width() == self.canvas_of().spec_width()
            &&& after.canvas_of().spec_height() == self.canvas_of().spec_height()
            &&& after.displayed()
            &&& exists|shown: std::io::Result<()>|
                #[trigger] presented(after.canvas_of(), shown) && r == flow_after(shown)
        }
    }

    /// Whether `after`, with the result `r`, is this loop one frame later: the
    /// input source is polled once, waiting at most one frame; an error from
    /// it is handed back with nothing else changed, and what it read is
    /// answered as [`GameLoop::answers`] says.
    pub open spec fn steps(self, after: Self, r: std::io::Result<Flow>) -> bool {
        exists|polled: std::io::Result<Option<Action>>|
            #[trigger] self.input_of().polls_to(self.frame_of(), after.input_of(), polled) && match polled {
                Ok(action) => self.answers(action, after, r),
                Err(e) => {
                    &&& r == Err::<Flow, std::io::Error>(e)
                    &&& after.engine_of() == self.engine_of()
                    &&& after.canvas_of() == self.canvas_of()
                    &&& after.clock_of() == self.clock_of()
                    &&& after.screen_of() == self.screen_of()
                    &&& after.frame_of() == self.frame_of()
                }
            }
    }

    /// Whether `trace` holds the frames of a run that started from this loop
    /// and came to `end` with the outcome `r`.
    ///
    /// The run draws the game first; if presenting fails, that is the end.
    /// Otherwise it keeps going from each frame to the next, and ends with a
    /// frame that asked to quit, or that failed with the error it hands back,
    /// or after the last of `u64::MAX` frames.
    pub open spec fn runs_through(self, trace: Seq<Self>, end: Self, r: std::io::Result<()>) -> bool {
        &&& trace.len() > 0
        &&& exists|drawn: std::io::Result<()>|
            #[trigger] self.redraws_into(trace[0], drawn) && match drawn {
                Err(e) => {
                    &&& trace.len() == 1
                    &&& end == trace[0]
                    &&& r == Err::<(), std::io::Error>(e)
                },
                Ok(_) => {
                    &&& Self::kept_going(trace)
                    &&& {
                        ||| trace.last().steps(end, Ok::<Flow, std::io::Error>(Flow::Quit)) && r is Ok
                        ||| exists|fault: std::io::Error|
                            #[trigger] trace.last().steps(end, Err::<Flow, std::io::Error>(fault))
                                && r == Err::<(), std::io::Error>(fault)
                        ||| trace.len() == u64::MAX + 1 && end == trace.last() && r is Ok
                    }
                },
            }
    }

    /// Whether each loop of `trace` is the one before it one frame later, the
    /// frame having asked to go on.
    pub open spec fn kept_going(trace: Seq<Self>) -> bool {
        forall|i: int|
            0 <= i < trace.len() - 1 ==> #[trigger] trace[i].steps(trace[i + 1], Ok::<Flow, std::io::Error>(Flow::Continue))
    }

    /// Whether the canvas shows the game as it stands.
    pub open spec fn displayed(self) -> bool {
        exists|shot: Snapshot|
            #![trigger self.engine_of().shows(shot)]
            self.engine_of().shows(shot) && self.canvas_of().picture() == screen_painted(
                self.screen_of(),
                shot,
                self.canvas_of().spec_width(),
                self.canvas_of().spec_height(),
                blank_picture(),
            )
    }

    /// Assembles a loop from its parts; the game's piece must be in play, and
    /// its board narrow enough for the sidebar to fit beside it.
    pub fn new(engine: Engine<R>, input: I, canvas: C, clock: K) -> (g: Self)
        requires
            engine.wf(),
            in_play(engine),
            layout_fits(engine.board_of().cols(), engine.board_of().lines()),
        ensures
            g.wf(),
            g.engine_of() == engine,
            g.input_of() == input,
            g.canvas_of() == canvas,
            g.clock_of() == clock,
            g.screen_of() == layout(engine.board_of().cols(), engine.board_of().lines()),
            nanos_of(g.frame_of()) == 16_000_000,
    {
        let board = engine.board();
        proof {
            use_type_invariant(board);
        }
        let columns = board.width() as u16;
        let rows = board.height() as u16;
        let screen = Screen::for_board(columns, rows);
        GameLoop {
            engine,
            input,
            canvas,
            clock,
            screen,
            frame: duration_from_nanos(16_000_000),
        }
    }

    /// The game being driven.
    pub fn engine(&self) -> (e: &Engine<R>)
        ensures
            *e == self.engine_of(),
    {
        &self.engine
    }

    /// The surface being drawn to.
    pub fn canvas(&self) -> (c: &C)
        ensures
            *c == self.canvas_of(),
    {
        &self.canvas
    }

    /// Draws the current state: clears the canvas, paints the screen from a
    /// snapshot of the game, and presents it. The game is left as it was.
    ///
    /// The result is what the canvas reports on presenting.
    pub fn draw(&mut self) -> (r: std::io::Result<()>)
        requires
            old(self).wf(),
            old(self).has_room(),
        ensures
            final(self).wf(),
            final(self).has_room(),
            old(self).redraws_into(*final(self), r),
    {
        self.canvas.clear();
        let shot = self.engine.snapshot();
        proof {
            lemma_layout_paints(self.engine, shot);
        }
        self.screen.paint(&shot, &mut self.canvas);
        let ghost painted = self.canvas;
        let r = self.canvas.present();
        assert(self.engine_of().shows(shot));
        assert(painted.presents_to(self.canvas, r));
        r
    }

    /// Runs one frame: input, then time, then a redraw.
    ///
    /// The input source is asked for an action, waiting at most one frame;
    /// what it hands back is dealt with by [`GameLoop::respond`]. An error from
    /// the input source stops the frame before anything happens; one from the
    /// canvas comes after the game moved on.
    pub fn step(&mut self) -> (r: std::io::Result<Flow>)
        requires
            old(self).wf(),
            old(self).has_room(),
        ensures
            final(self).wf(),
            final(self).has_room(),
            old(self).steps(*final(self), r),
    {
        let polled = self.input.poll(self.frame);
        match polled {
            Ok(action) => {
                let ghost mid = *self;
                let r = self.respond(action);
                proof {
                    assert(old(self).input_of().polls_to(old(self).frame_of(), self.input_of(), polled));
                    assert(mid.answers(action, *self, r));
                    assert(mid.engine_of() == old(self).engine_of());
                    assert(mid.clock_of() == old(self).clock_of());
                    assert(mid.canvas_of() == old(self).canvas_of());
                    assert(mid.screen_of() == old(self).screen_of());
                    assert(mid.frame_of() == old(self).frame_of());
                    assert(old(self).answers(action, *self, r));
                }
                r
            },
            Err(e) => {
                assert(old(self).input_of().polls_to(old(self).frame_of(), self.input_of(), polled));
                Err(e)
            },
        }
    }

    /// Runs the rest of a frame once `action` has been read, if one was.
    ///
    /// Quitting stops the frame before anything happens to the game or the
    /// canvas. Otherwise the action, if any, is applied, the time the clock
    /// reports is passed to the game, and the game is drawn; the frame goes on
    /// unless presenting the canvas fails.
    pub fn respond(&mut self, action: Option<Action>) -> (r: std::io::Result<Flow>)
        requires
            old(self).wf(),
            old(self).has_room(),
        ensures
            final(self).wf(),
            final(self).has_room(),
            final(self).input_of() == old(self).input_of(),
            old(self).answers(action, *final(self), r),
    {
        if let Some(Action::Quit) = action {
            return Ok(Flow::Quit);
        }
        let ghost before = self.engine;
        match action {
            Some(a) => {
                self.engine.apply(a);
                proof {
                    law_apply_keeps_piece_in_play(before, a, self.engine);
                    law_apply_keeps_board_size(before, a, self.engine);
                }
            },
            None => {},
        }
        let ghost mid = self.engine;
        let ghost clock_before = self.clock;
        let elapsed = self.clock.tick();
        let ghost clock_after = self.clock;
        self.engine.tick(elapsed);
        let board = self.engine.board();
        proof {
            use_type_invariant(board);
            law_tick_keeps_board_size(mid, nanos_of(elapsed), self.engine);
            law_tick_keeps_piece_in_play(mid, nanos_of(elapsed), self.engine);
            assert(frame_advances(before, action, nanos_of(elapsed), self.engine));
        }
        let ghost delta = nanos_of(elapsed);
        let r = self.draw();
        proof {
            assert(presented(self.canvas_of(), r));
            assert(before == old(self).engine_of());
            assert(frame_advances(old(self).engine_of(), action, delta, self.engine_of()));
            assert(old(self).clock_of().ticks_to(self.clock_of(), elapsed));
        }
        match r {
            Ok(()) => Ok(Flow::Continue),
            Err(e) => Err(e),
        }
    }

    /// Runs frames until the player quits, drawing the game first.
    ///
    /// Returns the first error from the input source or the canvas. Frames are
    /// counted in a `u64`, so the loop also stops, having drawn its last frame,
    /// after `u64::MAX` of them.
    pub fn run(&mut self) -> (r: std::io::Result<()>)
        requires
            old(self).wf(),
            old(self).has_room(),
        ensures
            final(self).wf(),
            final(self).has_room(),
            r is Ok ==> final(self).displayed(),
            exists|trace: Seq<Self>| #[trigger] old(self).runs_through(trace, *final(self), r),
    {
        let drawn = self.draw();
        let ghost mut trace: Seq<Self> = seq![*self];
        match drawn {
            Ok(()) => {},
            Err(e) => {
                assert(old(self).redraws_into(trace[0], drawn));
                assert(old(self).runs_through(trace, *self, Err(e)));
                return Err(e);
            },
        }
        let mut frames: u64 = 0;
        while frames < u64::MAX
            invariant
                self.wf(),
                self.has_room(),
                self.displayed(),
                trace.len() == frames + 1,
                old(self).redraws_into(trace[0], drawn),
                drawn is Ok,
                Self::kept_going(trace),
                trace.last() == *self,
            decreases u64::MAX - frames,
        {
            let ghost before = *self;
            let stepped = self.step();
            match stepped {
                Ok(Flow::Quit) => {
                    assert(trace.last().steps(*self, stepped));
                    assert(old(self).runs_through(trace, *self, Ok(())));
                    return Ok(());
                },
                Ok(Flow::Continue) => {},
                Err(e) => {
                    assert(trace.last().steps(*self, Err::<Flow, std::io::Error>(e)));
                    assert(old(self).runs_through(trace, *self, Err(e)));
                    return Err(e);
                },
            }
            proof {
                let old_trace = trace;
                trace = trace.push(*self);
                assert forall|i: int| 0 <= i < trace.len() - 1 implies
                    #[trigger] trace[i].steps(trace[i + 1], Ok::<Flow, std::io::Error>(Flow::Continue)) by {
                    if i < old_trace.len() - 1 {
                        assert(old_trace[i].steps(old_trace[i + 1], Ok::<Flow, std::io::Error>(Flow::Continue)));
                    } else {
                        assert(trace[i] == before);
                    }
                }
            }
            frames = frames + 1;
        }
        assert(old(self).runs_through(trace, *self, Ok(())));
        Ok(())
    }
}

/// Drawing a game twice in a row leaves the canvas showing the same picture as
/// drawing it once.
pub proof fn law_redraw_changes_nothing<R: RuleSet, I: InputSource, C: Canvas, K: Clock>(
    start: GameLoop<R, I, C, K>,
    once: GameLoop<R, I, C, K>,
    first: std::io::Result<()>,
    twice: GameLoop<R, I, C, K>,
    second: std::io::Result<()>,
)
    requires
        start.redraws_into(once, first),
        once.redraws_into(twice, second),
    ensures
        twice.canvas_of().picture() == once.canvas_of().picture(),
        twice.engine_of() == once.engine_of(),
{
    let s1 = choose|shot: Snapshot| #[trigger] once.engine_of().shows(shot) && once.canvas_of().picture() == screen_painted(
        once.screen_of(), shot, once.canvas_of().spec_width(), once.canvas_of().spec_height(), blank_picture());
    let s2 = choose|shot: Snapshot| #[trigger] twice.engine_of().shows(shot) && twice.canvas_of().picture() == screen_painted(
        twice.screen_of(), shot, twice.canvas_of().spec_width(), twice.canvas_of().spec_height(), blank_picture());
    assert(s1.board.same(s2.board));
    assert(s1.next@ == s2.next@);
}

} // verus!

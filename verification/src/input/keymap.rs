//! Turning keys into actions.

use vstd::prelude::*;
use crate::game::Action;
use crate::geometry::Spin;
use crate::input::key::Key;

verus! {

/// Decides what a key means.
///
/// Rebinding is the single most requested change to any game, so the mapping is
/// a trait with no dependency on either the terminal or the engine.
pub trait KeyMap {
    /// The action bound to `key`.
    spec fn binding(&self, key: Key) -> Option<Action>;

    /// The action `key` should trigger, or [`None`] if it is unbound.
    fn action_for(&self, key: Key) -> (a: Option<Action>)
        ensures
            a == self.binding(key),
    ;
}

/// The default bindings: arrows move, up and `x` turn clockwise, `z` turns
/// counter-clockwise, space drops, `p` pauses, `r` restarts, `q` and escape
/// quit. Letters work in either case.
pub open spec fn default_binding(key: Key) -> Option<Action> {
    match key {
        Key::Left => Some(Action::MoveLeft),
        Key::Right => Some(Action::MoveRight),
        Key::Down => Some(Action::SoftDrop),
        Key::Up => Some(Action::Rotate(Spin::Clockwise)),
        Key::Space => Some(Action::HardDrop),
        Key::Escape => Some(Action::Quit),
        Key::Char(_) => {
            let l = key.spec_letter();
            if l == Some('x') {
                Some(Action::Rotate(Spin::Clockwise))
            } else if l == Some('z') {
                Some(Action::Rotate(Spin::CounterClockwise))
            } else if l == Some('p') {
                Some(Action::TogglePause)
            } else if l == Some('r') {
                Some(Action::Restart)
            } else if l == Some('q') {
                Some(Action::Quit)
            } else {
                None
            }
        },
    }
}

/// Arrow keys to move, space to drop, and the usual letters.
#[derive(Debug, Clone, Copy, Default)]
pub struct DefaultKeyMap;

impl KeyMap for DefaultKeyMap {
    open spec fn binding(&self, key: Key) -> Option<Action> {
        default_binding(key)
    }

    fn action_for(&self, key: Key) -> (a: Option<Action>) {
        match key {
            Key::Left => Some(Action::MoveLeft),
            Key::Right => Some(Action::MoveRight),
            Key::Down => Some(Action::SoftDrop),
            Key::Up => Some(Action::Rotate(Spin::Clockwise)),
            Key::Space => Some(Action::HardDrop),
            Key::Escape => Some(Action::Quit),
            Key::Char(_) => match key.letter() {
                Some('x') => Some(Action::Rotate(Spin::Clockwise)),
                Some('z') => Some(Action::Rotate(Spin::CounterClockwise)),
                Some('p') => Some(Action::TogglePause),
                Some('r') => Some(Action::Restart),
                Some('q') => Some(Action::Quit),
                _ => None,
            },
        }
    }
}

/// Letters are read the same with caps lock on, and there are two ways to quit
/// so the player is never trapped.
pub proof fn lemma_case_insensitive_and_two_exits(c: char)
    ensures
        default_binding(Key::Char(c)) == default_binding(Key::Char(crate::input::key::ascii_lower(c))),
        default_binding(Key::Escape) == Some(Action::Quit),
        default_binding(Key::Char('q')) == Some(Action::Quit),
        default_binding(Key::Char('Q')) == Some(Action::Quit),
{
    assert(crate::input::key::ascii_lower('Q') == 'q');
}

} // verus!

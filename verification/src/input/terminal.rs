//! Deciding what a terminal key event means.
//!
//! The terminal library's events are read elsewhere and handed over as the
//! plain values below, so everything that decides what a key press does is a
//! pure function.

use vstd::prelude::*;
use crate::game::Action;
use crate::input::key::Key;
use crate::input::keymap::{DefaultKeyMap, KeyMap};

verus! {

/// A key as a terminal reports it.
#[derive(Debug, Clone, Copy, PartialEq, Eq, Structural)]
pub enum KeyCode {
    /// Backspace.
    Backspace,
    /// Enter.
    Enter,
    /// The left arrow.
    Left,
    /// The right arrow.
    Right,
    /// The up arrow.
    Up,
    /// The down arrow.
    Down,
    /// Home.
    Home,
    /// End.
    End,
    /// Page up.
    PageUp,
    /// Page down.
    PageDown,
    /// Tab.
    Tab,
    /// Shift and tab.
    BackTab,
    /// Delete.
    Delete,
    /// Insert.
    Insert,
    /// A function key, by number.
    F(u8),
    /// A printable character, the space bar included.
    Char(char),
    /// The null key.
    Null,
    /// Escape.
    Esc,
    /// Any other key the terminal can report.
    Other,
}

/// The modifier keys held during a key event.
#[derive(Debug, Clone, Copy, PartialEq, Eq, Structural)]
pub struct KeyModifiers {
    /// Whether shift was held.
    pub shift: bool,
    /// Whether control was held.
    pub control: bool,
    /// Whether alt was held.
    pub alt: bool,
}

impl KeyModifiers {
    /// No modifier held.
    pub fn none() -> (m: KeyModifiers)
        ensures
            !m.shift && !m.control && !m.alt,
    {
        KeyModifiers { shift: false, control: false, alt: false }
    }

    /// Control held alone.
    pub fn control() -> (m: KeyModifiers)
        ensures
            !m.shift && m.control && !m.alt,
    {
        KeyModifiers { shift: false, control: true, alt: false }
    }
}

/// Whether a key went down, repeats while held, or came up.
#[derive(Debug, Clone, Copy, PartialEq, Eq, Structural)]
pub enum KeyEventKind {
    /// The key went down.
    Press,
    /// The key is held and repeats.
    Repeat,
    /// The key came up.
    Release,
}

/// One key event from a terminal.
#[derive(Debug, Clone, Copy, PartialEq, Eq, Structural)]
pub struct KeyEvent {
    /// Which key.
    pub code: KeyCode,
    /// Which modifiers were held.
    pub modifiers: KeyModifiers,
    /// Whether it went down, repeats or came up.
    pub kind: KeyEventKind,
}

impl KeyEvent {
    /// A press of `code` with `modifiers` held.
    pub fn new(code: KeyCode, modifiers: KeyModifiers) -> (e: KeyEvent)
        ensures
            e == (KeyEvent { code, modifiers, kind: KeyEventKind::Press }),
    {
        KeyEvent { code, modifiers, kind: KeyEventKind::Press }
    }
}

/// Whether `key` is control and `c`, which always quits.
pub open spec fn spec_is_interrupt(key: KeyEvent) -> bool {
    key.modifiers.control && (key.code == KeyCode::Char('c') || key.code == KeyCode::Char('C'))
}

/// Whether `key` is control and `c`, which always quits.
pub fn is_interrupt(key: KeyEvent) -> (b: bool)
    ensures
        b == spec_is_interrupt(key),
{
    key.modifiers.control && match key.code {
        KeyCode::Char(c) => c == 'c' || c == 'C',
        _ => false,
    }
}

/// Our own key for a terminal key code: the arrows, the space bar, escape and
/// every other character; nothing for keys the game does not use.
pub open spec fn spec_translate(code: KeyCode) -> Option<Key> {
    match code {
        KeyCode::Left => Some(Key::Left),
        KeyCode::Right => Some(Key::Right),
        KeyCode::Up => Some(Key::Up),
        KeyCode::Down => Some(Key::Down),
        KeyCode::Char(ch) => if ch == ' ' {
            Some(Key::Space)
        } else {
            Some(Key::Char(ch))
        },
        KeyCode::Esc => Some(Key::Escape),
        _ => None,
    }
}

/// Our own key for a terminal key code, or nothing for a key the game does
/// not use.
pub fn translate(code: KeyCode) -> (k: Option<Key>)
    ensures
        k == spec_translate(code),
{
    match code {
        KeyCode::Left => Some(Key::Left),
        KeyCode::Right => Some(Key::Right),
        KeyCode::Up => Some(Key::Up),
        KeyCode::Down => Some(Key::Down),
        KeyCode::Char(' ') => Some(Key::Space),
        KeyCode::Esc => Some(Key::Escape),
        KeyCode::Char(ch) => Some(Key::Char(ch)),
        _ => None,
    }
}

/// Reads key presses from the terminal and maps them to actions.
#[derive(Debug, Clone)]
pub struct TerminalInput<K: KeyMap> {
    keymap: K,
}

impl<K: KeyMap> TerminalInput<K> {
    /// The key map in use.
    pub closed spec fn keys(self) -> K {
        self.keymap
    }

    /// Creates an input source using `keymap`.
    pub fn new(keymap: K) -> (t: TerminalInput<K>)
        ensures
            t.keys() == keymap,
    {
        TerminalInput { keymap }
    }

    /// What `event` asks for: nothing when a key comes up; quitting on
    /// control-c, whatever the key map says; otherwise the action the key map
    /// binds to the key, if the game uses the key at all.
    pub open spec fn meaning(self, event: KeyEvent) -> Option<Action> {
        if event.kind == KeyEventKind::Release {
            None
        } else if spec_is_interrupt(event) {
            Some(Action::Quit)
        } else {
            match spec_translate(event.code) {
                Some(key) => self.keys().binding(key),
                None => None,
            }
        }
    }

    /// The action `event` asks for, if any.
    pub fn interpret(&self, event: KeyEvent) -> (a: Option<Action>)
        ensures
            a == self.meaning(event),
    {
        if event.kind == KeyEventKind::Release {
            return None;
        }
        if is_interrupt(event) {
            return Some(Action::Quit);
        }
        match translate(event.code) {
            Some(key) => self.keymap.action_for(key),
            None => None,
        }
    }
}

impl Default for TerminalInput<DefaultKeyMap> {
    fn default() -> (t: TerminalInput<DefaultKeyMap>)
        ensures
            t.keys() == DefaultKeyMap,
    {
        TerminalInput::new(DefaultKeyMap)
    }
}

} // verus!

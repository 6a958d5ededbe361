//! Keys, independent of any terminal library.

use vstd::prelude::*;

verus! {

/// `c` in lower case when it is an ASCII capital letter, unchanged otherwise.
pub open spec fn ascii_lower(c: char) -> char {
    if 'A' <= c <= 'Z' {
        ((c as u32) + 32) as char
    } else {
        c
    }
}

/// `c` in lower case when it is an ASCII capital letter, unchanged otherwise.
pub fn to_ascii_lower(c: char) -> (l: char)
    ensures
        l == ascii_lower(c),
{
    if 'A' <= c && c <= 'Z' {
        let code: u32 = c as u32 + 32;
        let byte: u8 = code as u8;
        byte as char
    } else {
        c
    }
}

/// A key the player pressed.
///
/// A deliberately small set of our own, rather than the terminal library's
/// event type, so the key map is a pure function that tests can call directly.
#[derive(Debug, Clone, Copy, PartialEq, Eq, Hash, Structural)]
pub enum Key {
    /// The left arrow.
    Left,
    /// The right arrow.
    Right,
    /// The up arrow.
    Up,
    /// The down arrow.
    Down,
    /// The space bar.
    Space,
    /// The escape key.
    Escape,
    /// A printable character.
    Char(char),
}

impl Key {
    /// The lowercase character this key carries, if it carries one.
    pub open spec fn spec_letter(self) -> Option<char> {
        match self {
            Key::Char(ch) => Some(ascii_lower(ch)),
            _ => None,
        }
    }

    /// The lowercase character this key carries, if it carries one.
    pub fn letter(self) -> (l: Option<char>)
        ensures
            l == self.spec_letter(),
    {
        match self {
            Key::Char(ch) => Some(to_ascii_lower(ch)),
            _ => None,
        }
    }
}

} // verus!

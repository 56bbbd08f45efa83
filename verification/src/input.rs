//! Keys as the library sees them: the key code of a key press, without the
//! terminal library's event type around it.

use vstd::prelude::*;

verus! {

/// A pressed key.
#[derive(Debug, Clone, Copy, PartialEq, Eq, Structural)]
pub enum Key {
    Char(char),
    Enter,
    Esc,
    Backspace,
    Tab,
    BackTab,
    Up,
    Down,
    Left,
    Right,
    /// Any key the application does not react to.
    Other,
}

} // verus!

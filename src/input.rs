//! Keyboard input: what a key event asks the game to do.

use vstd::prelude::*;

verus! {

/// The keys the game tells apart.
#[derive(Clone, Copy, Debug, PartialEq, Eq, Structural)]
pub enum Key {
    Char(char),
    Backspace,
    Enter,
    Esc,
    Other,
}

/// A key event: the key, and whether it was pressed (rather than released or
/// repeated).
#[derive(Clone, Copy, Debug, PartialEq, Eq, Structural)]
pub struct KeyEvent {
    pub code: Key,
    pub press: bool,
}

/// What a key event does to the game.
#[derive(Clone, Copy, Debug, PartialEq, Eq, Structural)]
pub enum Action {
    Append(char),
    Backspace,
    Submit,
    Quit,
    Ignore,
}

/// The action of a key event: only presses act.
pub open spec fn action_of(e: KeyEvent) -> Action {
    if !e.press {
        Action::Ignore
    } else {
        match e.code {
            Key::Char(c) => Action::Append(c),
            Key::Backspace => Action::Backspace,
            Key::Enter => Action::Submit,
            Key::Esc => Action::Quit,
            Key::Other => Action::Ignore,
        }
    }
}

/// Maps a key event to the action it asks for.
pub fn on_key(e: KeyEvent) -> (a: Action)
    ensures
        a == action_of(e),
{
    if !e.press {
        return Action::Ignore;
    }
    match e.code {
        Key::Char(c) => Action::Append(c),
        Key::Backspace => Action::Backspace,
        Key::Enter => Action::Submit,
        Key::Esc => Action::Quit,
        Key::Other => Action::Ignore,
    }
}

} // verus!

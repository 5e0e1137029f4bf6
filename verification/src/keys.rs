//! What comes in from the keyboard, and what the engine asks its caller to do.

use vstd::prelude::*;

use crate::candidate::Candidate;

verus! {

/// A key, as far as the engine tells keys apart.
#[derive(Debug, Clone, Copy, PartialEq, Eq)]
pub enum Key {
    Char(char),
    Backspace,
    Left,
    Right,
    Enter,
    Tab,
    Esc,
    /// Any key that the engine has no use for.
    Other,
}

/// Whether a key went down, is held down, or came up.
#[derive(Debug, Clone, Copy, PartialEq, Eq)]
pub enum KeyKind {
    Press,
    Repeat,
    Release,
}

/// What the caller is to do after a key has been handled.
#[derive(Debug, PartialEq, Eq)]
pub enum Action {
    /// Nothing: wait for the next key.
    Continue,
    /// Leave the run loop.
    Quit,
    /// Attach to the session named after the candidate and rooted at its path, or
    /// create it.
    Open(Candidate),
}

} // verus!

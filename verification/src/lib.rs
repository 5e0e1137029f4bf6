//! An interactive picker's core: an edit buffer with a cursor, a fuzzy ranker
//! over a list of candidates, and the key-driven state machine that ties them.

pub mod app;
pub mod candidate;
pub mod keys;
pub mod laws;
pub mod matching;
pub mod naming;
pub mod ranker;
pub mod ranking;
pub mod scorer;

pub use app::{App, AppView, InputMode};
pub use candidate::Candidate;
pub use keys::{Action, Key, KeyKind};

//! The selection engine: edit buffer, cursor, mode and the list that is shown.

use vstd::prelude::*;

use crate::candidate::Candidate;
use crate::keys::{Action, Key, KeyKind};
use crate::ranker::{rank_candidates, ranked};

verus! {

/// Which keys the engine listens to.
#[derive(Debug, Clone, Copy, PartialEq, Eq)]
pub enum InputMode {
    /// Keys edit the query.
    Editing,
    /// Keys only leave this mode or the program.
    Tabbing,
}

/// A cursor position brought into the range from 0 to `len`.
pub open spec fn clamped(position: int, len: int) -> int {
    if position < 0 {
        0
    } else if position > len {
        len
    } else {
        position
    }
}

/// The engine's state as a value: the query as code points, the cursor as a count of
/// code points before it, the mode, and the candidate store.
pub struct AppView {
    pub input: Seq<char>,
    pub cursor: int,
    pub mode: InputMode,
    pub paths: Seq<Candidate>,
}

impl AppView {
    /// The cursor stands inside the query or at one of its ends.
    pub open spec fn wf(self) -> bool {
        0 <= self.cursor <= self.input.len()
    }

    /// The list that is shown: the store, ranked for the query.
    pub open spec fn filtered(self) -> Seq<Candidate> {
        ranked(self.input, self.paths)
    }

    /// The state with the cursor one code point further left, if there is one.
    pub open spec fn moved_left(self) -> AppView {
        AppView { cursor: clamped(self.cursor - 1, self.input.len() as int), ..self }
    }

    /// The state with the cursor one code point further right, if there is one.
    pub open spec fn moved_right(self) -> AppView {
        AppView { cursor: clamped(self.cursor + 1, self.input.len() as int), ..self }
    }

    /// The state after `c` has been typed: it stands where the cursor was, and the
    /// cursor behind it.
    pub open spec fn entered(self, c: char) -> AppView {
        AppView { input: self.input.insert(self.cursor, c), cursor: self.cursor + 1, ..self }
    }

    /// The state after a backspace: the code point left of the cursor is gone and the
    /// cursor stands where it stood. With the cursor at the start nothing changes.
    pub open spec fn deleted(self) -> AppView {
        if self.cursor == 0 {
            self
        } else {
            AppView { input: self.input.remove(self.cursor - 1), cursor: self.cursor - 1, ..self }
        }
    }

    /// The state with the cursor at the start.
    pub open spec fn rewound(self) -> AppView {
        AppView { cursor: 0, ..self }
    }

    /// The state in another mode.
    pub open spec fn in_mode(self, mode: InputMode) -> AppView {
        AppView { mode, ..self }
    }

    /// The state with another candidate store.
    pub open spec fn with_paths(self, paths: Seq<Candidate>) -> AppView {
        AppView { paths, ..self }
    }

    /// What a commit selects: the first candidate shown, if any is shown.
    pub open spec fn selection(self) -> Option<Candidate> {
        if self.filtered().len() > 0 {
            Some(self.filtered()[0])
        } else {
            None
        }
    }

    /// The transition table: the state after a key, and what the caller is to do.
    pub open spec fn step(self, key: Key, kind: KeyKind) -> (AppView, Action) {
        match self.mode {
            InputMode::Tabbing => match key {
                Key::Char(c) => if c == 'e' {
                    (self.in_mode(InputMode::Editing), Action::Continue)
                } else if c == 'q' {
                    (self, Action::Quit)
                } else {
                    (self, Action::Continue)
                },
                Key::Esc => (self, Action::Quit),
                _ => (self, Action::Continue),
            },
            InputMode::Editing => if kind is Press {
                match key {
                    Key::Enter => match self.selection() {
                        Some(chosen) => (self, Action::Open(chosen)),
                        None => (self, Action::Continue),
                    },
                    Key::Char(c) => (self.entered(c), Action::Continue),
                    Key::Backspace => (self.deleted(), Action::Continue),
                    Key::Left => (self.moved_left(), Action::Continue),
                    Key::Right => (self.moved_right(), Action::Continue),
                    Key::Tab => (self.in_mode(InputMode::Tabbing), Action::Continue),
                    Key::Esc => (self, Action::Quit),
                    Key::Other => (self, Action::Continue),
                }
            } else {
                (self, Action::Continue)
            },
        }
    }
}

/// The selection engine. It owns the query and its cursor, the mode, the candidate
/// store and the list that is shown, which is at all times the store ranked for the
/// query.
pub struct App {
    input: Vec<char>,
    input_mode: InputMode,
    character_index: usize,
    paths: Vec<Candidate>,
    filtered_paths: Vec<Candidate>,
}

impl View for App {
    type V = AppView;

    closed spec fn view(&self) -> AppView {
        AppView {
            input: self.input@,
            cursor: self.character_index as int,
            mode: self.input_mode,
            paths: self.paths@,
        }
    }
}

impl App {
    #[verifier::type_invariant]
    spec fn inv(self) -> bool {
        &&& self.character_index <= self.input.len()
        &&& self.filtered_paths@ == ranked(self.input@, self.paths@)
    }

    /// An engine with an empty query, the cursor at its start, in editing mode, and
    /// with an empty store.
    pub fn new() -> (app: App)
        ensures
            app@.input == Seq::<char>::empty(),
            app@.cursor == 0,
            app@.mode == InputMode::Editing,
            app@.paths == Seq::<Candidate>::empty(),
            app@.wf(),
    {
        App {
            input: Vec::new(),
            input_mode: InputMode::Editing,
            character_index: 0,
            paths: Vec::new(),
            filtered_paths: Vec::new(),
        }
    }

    /// Takes the state out and leaves a new engine in its place.
    fn take(&mut self) -> (state: App)
        ensures
            state == *old(self),
    {
        let mut state = App::new();
        std::mem::swap(self, &mut state);
        state
    }

    /// Replaces the candidate store and ranks it for the query as it stands.
    pub fn set_paths(&mut self, paths: Vec<Candidate>)
        ensures
            final(self)@ == old(self)@.with_paths(paths@),
            final(self)@.wf(),
    {
        proof {
            use_type_invariant(&*self);
        }
        let App { input, input_mode, character_index, paths: _, filtered_paths: _ } = self.take();
        let filtered_paths = rank_candidates(&input, &paths);
        *self = App { input, input_mode, character_index, paths, filtered_paths };
    }

    /// The query, as code points.
    pub fn input(&self) -> (input: &Vec<char>)
        ensures
            input@ == self@.input,
    {
        &self.input
    }

    /// The number of code points left of the cursor.
    pub fn character_index(&self) -> (cursor: usize)
        ensures
            cursor == self@.cursor,
            self@.wf(),
    {
        proof {
            use_type_invariant(self);
        }
        self.character_index
    }

    /// The mode.
    pub fn input_mode(&self) -> (mode: InputMode)
        ensures
            mode == self@.mode,
    {
        self.input_mode
    }

    /// The candidate store.
    pub fn paths(&self) -> (paths: &Vec<Candidate>)
        ensures
            paths@ == self@.paths,
    {
        &self.paths
    }

    /// The list that is shown.
    pub fn filtered_paths(&self) -> (shown: &Vec<Candidate>)
        ensures
            shown@ == self@.filtered(),
    {
        proof {
            use_type_invariant(self);
        }
        &self.filtered_paths
    }

    /// Brings a cursor position into the query: positions past its end become its end.
    pub fn clamp_cursor(&self, new_cursor_pos: usize) -> (cursor: usize)
        ensures
            cursor == clamped(new_cursor_pos as int, self@.input.len() as int),
    {
        if new_cursor_pos > self.input.len() {
            self.input.len()
        } else {
            new_cursor_pos
        }
    }

    /// Moves the cursor one code point to the left; at the start it stays.
    pub fn move_cursor_left(&mut self)
        ensures
            final(self)@ == old(self)@.moved_left(),
            final(self)@.wf(),
    {
        proof {
            use_type_invariant(&*self);
        }
        let cursor_moved_left = self.character_index.saturating_sub(1);
        self.character_index = self.clamp_cursor(cursor_moved_left);
    }

    /// Moves the cursor one code point to the right; at the end it stays.
    pub fn move_cursor_right(&mut self)
        ensures
            final(self)@ == old(self)@.moved_right(),
            final(self)@.wf(),
    {
        proof {
            use_type_invariant(&*self);
        }
        let cursor_moved_right = self.character_index.saturating_add(1);
        self.character_index = self.clamp_cursor(cursor_moved_right);
    }

    /// Puts the cursor at the start.
    pub fn reset_cursor(&mut self)
        ensures
            final(self)@ == old(self)@.rewound(),
            final(self)@.wf(),
    {
        proof {
            use_type_invariant(&*self);
        }
        self.character_index = 0;
    }

    /// Types `new_char` at the cursor, moves the cursor behind it and ranks the store
    /// for the new query.
    pub fn enter_char(&mut self, new_char: char)
        ensures
            final(self)@ == old(self)@.entered(new_char),
            final(self)@.wf(),
    {
        proof {
            use_type_invariant(&*self);
        }
        let App { mut input, input_mode, character_index, paths, filtered_paths: _ } = self.take();
        input.insert(character_index, new_char);
        assert(character_index < input.len());
        let filtered_paths = rank_candidates(&input, &paths);
        *self = App { input, input_mode, character_index: character_index + 1, paths, filtered_paths };
    }

    /// Deletes the code point left of the cursor, moves the cursor onto its place and
    /// ranks the store for the new query. With the cursor at the start nothing changes.
    pub fn delete_char(&mut self)
        ensures
            final(self)@ == old(self)@.deleted(),
            final(self)@.wf(),
    {
        proof {
            use_type_invariant(&*self);
        }
        if self.character_index != 0 {
            let App { mut input, input_mode, character_index, paths, filtered_paths: _ } = self.take();
            input.remove(character_index - 1);
            let filtered_paths = rank_candidates(&input, &paths);
            *self = App { input, input_mode, character_index: character_index - 1, paths, filtered_paths };
        }
    }

    /// What a commit selects: the first candidate shown, if any is shown.
    pub fn select_project(&self) -> (chosen: Option<Candidate>)
        ensures
            chosen == self@.selection(),
    {
        proof {
            use_type_invariant(self);
        }
        if self.filtered_paths.len() > 0 {
            Some(self.filtered_paths[0].clone())
        } else {
            None
        }
    }

    /// Handles one key event: changes the state as the transition table says and tells
    /// the caller what to do.
    pub fn handle_key(&mut self, key: Key, kind: KeyKind) -> (action: Action)
        ensures
            final(self)@ == old(self)@.step(key, kind).0,
            action == old(self)@.step(key, kind).1,
            final(self)@.wf(),
    {
        proof {
            use_type_invariant(&*self);
        }
        match self.input_mode {
            InputMode::Tabbing => match key {
                Key::Char(c) => {
                    if c == 'e' {
                        self.input_mode = InputMode::Editing;
                        Action::Continue
                    } else if c == 'q' {
                        Action::Quit
                    } else {
                        Action::Continue
                    }
                },
                Key::Esc => Action::Quit,
                _ => Action::Continue,
            },
            InputMode::Editing => match kind {
                KeyKind::Press => match key {
                    Key::Enter => match self.select_project() {
                        Some(chosen) => Action::Open(chosen),
                        None => Action::Continue,
                    },
                    Key::Char(c) => {
                        self.enter_char(c);
                        Action::Continue
                    },
                    Key::Backspace => {
                        self.delete_char();
                        Action::Continue
                    },
                    Key::Left => {
                        self.move_cursor_left();
                        Action::Continue
                    },
                    Key::Right => {
                        self.move_cursor_right();
                        Action::Continue
                    },
                    Key::Tab => {
                        self.input_mode = InputMode::Tabbing;
                        Action::Continue
                    },
                    Key::Esc => Action::Quit,
                    Key::Other => Action::Continue,
                },
                _ => Action::Continue,
            },
        }
    }
}

} // verus!

//! What holds of the engine's transitions, whatever keys arrive.

use vstd::prelude::*;

use crate::app::{AppView, InputMode};
use crate::keys::{Action, Key, KeyKind};

verus! {

/// The state after a sequence of key events, handled one after the other.
pub open spec fn after_keys(start: AppView, events: Seq<(Key, KeyKind)>) -> AppView
    decreases events.len(),
{
    if events.len() == 0 {
        start
    } else {
        after_keys(start, events.drop_last()).step(events.last().0, events.last().1).0
    }
}

/// No key moves the cursor out of the query: not a backspace at the start, not a
/// right arrow at the end, nor any other.
pub proof fn step_keeps_cursor_in_bounds(state: AppView, key: Key, kind: KeyKind)
    requires
        state.wf(),
    ensures
        state.step(key, kind).0.wf(),
{
}

/// A backspace with the cursor at the start and a right arrow with the cursor at the
/// end change nothing, however often they come.
pub proof fn keys_at_the_ends_change_nothing(state: AppView)
    requires
        state.wf(),
    ensures
        state.cursor == 0 ==> state.deleted() == state && state.moved_left() == state,
        state.cursor == state.input.len() ==> state.moved_right() == state,
{
}

/// After every key of any sequence of key events the cursor stands inside the query
/// or at one of its ends.
pub proof fn cursor_stays_in_bounds(start: AppView, events: Seq<(Key, KeyKind)>)
    requires
        start.wf(),
    ensures
        forall|n: int| 0 <= n <= events.len() ==> (#[trigger] after_keys(start, events.take(n))).wf(),
{
    assert forall|n: int| 0 <= n <= events.len() implies (#[trigger] after_keys(
        start,
        events.take(n),
    )).wf() by {
        lemma_in_bounds_at_end(start, events.take(n));
    }
}

/// After the last key of a sequence of key events the cursor stands inside the query
/// or at one of its ends.
proof fn lemma_in_bounds_at_end(start: AppView, events: Seq<(Key, KeyKind)>)
    requires
        start.wf(),
    ensures
        after_keys(start, events).wf(),
    decreases events.len(),
{
    if events.len() > 0 {
        lemma_in_bounds_at_end(start, events.drop_last());
        step_keeps_cursor_in_bounds(
            after_keys(start, events.drop_last()),
            events.last().0,
            events.last().1,
        );
    }
}

/// Typing a character, of whatever width in bytes, and deleting it again gives back
/// the query and the cursor exactly as they were, and with them the list that is shown.
pub proof fn enter_then_delete_restores(state: AppView, c: char)
    requires
        state.wf(),
    ensures
        state.entered(c).deleted() == state,
        state.entered(c).deleted().filtered() == state.filtered(),
{
    assert(state.input.insert(state.cursor, c).remove(state.cursor) =~= state.input);
}

/// In editing mode a pressed Tab leads to the other mode and leaves the query, the
/// cursor, the store and the list that is shown as they were.
pub proof fn tab_leaves_editing(state: AppView)
    requires
        state.mode == InputMode::Editing,
    ensures
        state.step(Key::Tab, KeyKind::Press) == (state.in_mode(InputMode::Tabbing), Action::Continue),
        state.in_mode(InputMode::Tabbing).input == state.input,
        state.in_mode(InputMode::Tabbing).cursor == state.cursor,
        state.in_mode(InputMode::Tabbing).filtered() == state.filtered(),
{
}

/// In the other mode the key `e` leads back to editing and leaves the query, the
/// cursor, the store and the list that is shown as they were.
pub proof fn e_returns_to_editing(state: AppView, kind: KeyKind)
    requires
        state.mode == InputMode::Tabbing,
    ensures
        state.step(Key::Char('e'), kind) == (state.in_mode(InputMode::Editing), Action::Continue),
        state.in_mode(InputMode::Editing).input == state.input,
        state.in_mode(InputMode::Editing).cursor == state.cursor,
        state.in_mode(InputMode::Editing).filtered() == state.filtered(),
{
}

/// Leaving editing with Tab and coming back with `e` gives the state that was left.
pub proof fn tab_then_e_restores(state: AppView, kind: KeyKind)
    requires
        state.mode == InputMode::Editing,
    ensures
        state.step(Key::Tab, KeyKind::Press).0.step(Key::Char('e'), kind).0 == state,
{
}

/// The quit keys end the run from either mode and change nothing: a pressed Esc while
/// editing, and `q` or Esc in the other mode.
pub proof fn quit_keys_quit(state: AppView, kind: KeyKind)
    ensures
        state.mode == InputMode::Editing ==> state.step(Key::Esc, KeyKind::Press) == (state, Action::Quit),
        state.mode == InputMode::Tabbing ==> state.step(Key::Esc, kind) == (state, Action::Quit),
        state.mode == InputMode::Tabbing ==> state.step(Key::Char('q'), kind) == (state, Action::Quit),
{
}

/// In the other mode every key but `e`, `q` and Esc is ignored, and while editing
/// every key event that is not a press.
pub proof fn other_keys_are_ignored(state: AppView, key: Key, kind: KeyKind)
    ensures
        state.mode == InputMode::Tabbing && key != Key::Char('e') && key != Key::Char('q') && key
            != Key::Esc ==> state.step(key, kind) == (state, Action::Continue),
        state.mode == InputMode::Editing && kind != KeyKind::Press ==> state.step(key, kind) == (
            state,
            Action::Continue,
        ),
{
}

/// No key changes the candidate store, and only a typed character or a backspace
/// changes the query and with it the list that is shown.
pub proof fn keys_leave_store_alone(state: AppView, key: Key, kind: KeyKind)
    ensures
        state.step(key, kind).0.paths == state.paths,
        !(key is Char) && key != Key::Backspace ==> state.step(key, kind).0.input == state.input
            && state.step(key, kind).0.filtered() == state.filtered(),
{
}

/// A commit takes the first candidate shown and leaves the state as it is; with
/// nothing shown it does nothing.
pub proof fn commit_takes_first_shown(state: AppView)
    requires
        state.mode == InputMode::Editing,
    ensures
        state.step(Key::Enter, KeyKind::Press).0 == state,
        state.filtered().len() > 0 ==> state.step(Key::Enter, KeyKind::Press).1 == Action::Open(
            state.filtered()[0],
        ),
        state.filtered().len() == 0 ==> state.step(Key::Enter, KeyKind::Press).1 == Action::Continue,
{
}

} // verus!

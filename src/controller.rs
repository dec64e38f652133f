//! What each key does to the buffer, and what the editor does next.
use vstd::prelude::*;
use crate::poem::{
    down_target, edit_outcome, moved_to, moved_vertically, save_outcome, up_target, EditOperation,
    Poem,
};
use crate::text::{line_end, line_start};

verus! {

/// A key as the editor reads it.
pub enum Key {
    Esc,
    Ctrl(char),
    Char(char),
    Backspace,
    Delete,
    BackTab,
    Left,
    Right,
    Up,
    Down,
    Home,
    End,
    /// Any other key.
    Other,
}

/// What the editor does after a key.
pub enum Action {
    /// Paint the buffer again.
    Redraw,
    /// Stop editing.
    Quit,
    /// Write `contents` to the file at `path`, then paint again.
    Save { path: Vec<char>, contents: Vec<char> },
}

/// Applies `key` to `poem` and says what to do next: Esc quits, Ctrl-S
/// saves, a character is inserted, Backspace and Delete remove one, BackTab
/// inserts a line separator, the arrows, Home and End move the cursor; any
/// other key changes nothing.
pub fn handle_key(poem: &mut Poem, key: Key) -> (r: Action)
    requires
        old(poem).wf(),
    ensures
        final(poem).wf(),
        match key {
            Key::Esc => r is Quit && *final(poem) == *old(poem),
            Key::Ctrl(c) => if c == 's' {
                r matches Action::Save { path, contents } && save_outcome(
                    *old(poem),
                    *final(poem),
                    path@,
                    contents@,
                )
            } else {
                r is Redraw && *final(poem) == *old(poem)
            },
            Key::Char(c) => r is Redraw && edit_outcome(
                *old(poem),
                *final(poem),
                EditOperation::Insert(c),
            ),
            Key::Backspace => r is Redraw && edit_outcome(
                *old(poem),
                *final(poem),
                EditOperation::DeleteLeft,
            ),
            Key::Delete => r is Redraw && edit_outcome(
                *old(poem),
                *final(poem),
                EditOperation::DeleteRight,
            ),
            Key::BackTab => r is Redraw && edit_outcome(
                *old(poem),
                *final(poem),
                EditOperation::Newline,
            ),
            Key::Left => r is Redraw && moved_to(
                *old(poem),
                *final(poem),
                if old(poem).cursor == 0 {
                    0
                } else {
                    old(poem).cursor - 1
                },
            ),
            Key::Right => r is Redraw && moved_to(
                *old(poem),
                *final(poem),
                if old(poem).cursor == old(poem).buffer@.len() {
                    old(poem).cursor as int
                } else {
                    old(poem).cursor + 1
                },
            ),
            Key::Up => r is Redraw && moved_vertically(
                *old(poem),
                *final(poem),
                up_target(old(poem).buffer@, old(poem).cursor as int),
            ),
            Key::Down => r is Redraw && moved_vertically(
                *old(poem),
                *final(poem),
                down_target(old(poem).buffer@, old(poem).cursor as int),
            ),
            Key::Home => r is Redraw && moved_to(
                *old(poem),
                *final(poem),
                line_start(old(poem).buffer@, old(poem).cursor as int),
            ),
            Key::End => r is Redraw && moved_to(
                *old(poem),
                *final(poem),
                line_end(old(poem).buffer@, old(poem).cursor as int),
            ),
            Key::Other => r is Redraw && *final(poem) == *old(poem),
        },
{
    match key {
        Key::Esc => {
            return Action::Quit;
        },
        Key::Ctrl(c) => {
            if c == 's' {
                let (path, contents) = poem.take_save_target();
                return Action::Save { path, contents };
            }
        },
        Key::Char(c) => poem.modify(EditOperation::Insert(c)),
        Key::Backspace => poem.modify(EditOperation::DeleteLeft),
        Key::Delete => poem.modify(EditOperation::DeleteRight),
        Key::BackTab => poem.modify(EditOperation::Newline),
        Key::Left => poem.move_left(),
        Key::Right => poem.move_right(),
        Key::Up => poem.move_up(),
        Key::Down => poem.move_down(),
        Key::Home => poem.cursor_start_line(),
        Key::End => poem.cursor_end_line(),
        Key::Other => {},
    }
    Action::Redraw
}

} // verus!

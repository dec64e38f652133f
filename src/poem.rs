//! The text buffer: its characters, the cursor, and the operations on them.
use vstd::prelude::*;
use crate::text::{
    chars_of, col_of, copy_range, find_line_end, find_line_start, lemma_line_end, lemma_line_start,
    lemma_prefix_locates, lemma_row_zero, lemma_same_line, line_end, line_start, row_of,
};

verus! {

/// An edit at the cursor.
pub enum EditOperation {
    /// Insert a character at the cursor and move past it.
    Insert(char),
    /// Remove the character at the cursor.
    DeleteRight,
    /// Remove the character before the cursor.
    DeleteLeft,
    /// Insert a line separator at the cursor, leaving the cursor before it.
    Newline,
}

/// The text being edited, a cursor into it, and the file it belongs to.
pub struct Poem {
    /// The text, one character per element.
    pub buffer: Vec<char>,
    /// Offset into `buffer`, at most its length.
    pub cursor: usize,
    /// Column reached by the last vertical move.
    pub target_line_pos: usize,
    /// Path of the file the text is saved to, once known.
    pub name: Option<Vec<char>>,
}

/// `after` is `before` with `edit` applied at the cursor.
pub open spec fn edit_outcome(before: Poem, after: Poem, edit: EditOperation) -> bool {
    &&& after.wf()
    &&& after.name == before.name
    &&& after.target_line_pos == before.target_line_pos
    &&& match edit {
        EditOperation::Insert(c) => {
            &&& after.buffer@ == before.buffer@.insert(before.cursor as int, c)
            &&& after.cursor == before.cursor + 1
        },
        EditOperation::DeleteRight => {
            &&& before.cursor < before.buffer@.len() ==> after.buffer@
                == before.buffer@.remove(before.cursor as int)
            &&& before.cursor == before.buffer@.len() ==> after.buffer@
                == before.buffer@
            &&& after.cursor == before.cursor
        },
        EditOperation::DeleteLeft => {
            &&& before.cursor > 0 ==> after.buffer@ == before.buffer@.remove(before.cursor - 1)
                && after.cursor == before.cursor - 1
            &&& before.cursor == 0 ==> after.buffer@ == before.buffer@ && after.cursor == 0
        },
        EditOperation::Newline => {
            &&& after.buffer@ == before.buffer@.insert(before.cursor as int, '\n')
            &&& after.cursor == before.cursor
        },
    }
}

/// `after` is `before` with the cursor at `cursor` and nothing else changed.
pub open spec fn moved_to(before: Poem, after: Poem, cursor: int) -> bool {
    &&& after.buffer == before.buffer
    &&& after.name == before.name
    &&& after.target_line_pos == before.target_line_pos
    &&& after.cursor == cursor
}

/// `after` is `before` after a vertical move to `cursor`, which records the
/// column it started from.
pub open spec fn moved_vertically(before: Poem, after: Poem, cursor: int) -> bool {
    &&& after.buffer == before.buffer
    &&& after.name == before.name
    &&& after.target_line_pos == col_of(before.buffer@, before.cursor as int)
    &&& after.cursor == cursor
}

/// Saving `before` writes `contents` to `path` and leaves `after`. A buffer
/// with a name is written whole under it. Otherwise its first line becomes
/// the name and leaves the buffer, and the cursor keeps its place in the
/// rest, or goes to the start where it stood on that first line.
pub open spec fn save_outcome(
    before: Poem,
    after: Poem,
    path: Seq<char>,
    contents: Seq<char>,
) -> bool {
    match before.name {
        Some(n) => {
            &&& path == n@
            &&& contents == before.buffer@
            &&& after == before
        },
        None => {
            let s = before.buffer@;
            let le = line_end(s, 0);
            &&& path == s.subrange(0, le)
            &&& contents == if le < s.len() {
                s.subrange(le + 1, s.len() as int)
            } else {
                Seq::<char>::empty()
            }
            &&& after.name matches Some(n) && n@ == path
            &&& after.buffer@ == contents
            &&& after.target_line_pos == before.target_line_pos
            &&& after.cursor == if before.cursor > le {
                before.cursor - (le + 1)
            } else {
                0
            }
            &&& after.wf()
        },
    }
}

/// Offset reached by moving up from offset `k`: the same column on the line
/// above, or that line's end when it is shorter; offset 0 from the first line.
pub open spec fn up_target(s: Seq<char>, k: int) -> int {
    let ls = line_start(s, k);
    if ls == 0 {
        0
    } else {
        let ps = line_start(s, ls - 1);
        let prev_len = ls - 1 - ps;
        if prev_len >= col_of(s, k) {
            ps + col_of(s, k)
        } else {
            ls - 1
        }
    }
}

/// Offset reached by moving down from offset `k`: the same column on the line
/// below, or that line's end when it is shorter; the end of the last line
/// from the last line.
pub open spec fn down_target(s: Seq<char>, k: int) -> int {
    let le = line_end(s, k);
    if le == s.len() {
        le
    } else {
        let ns = le + 1;
        let next_len = line_end(s, ns) - ns;
        if next_len >= col_of(s, k) {
            ns + col_of(s, k)
        } else {
            line_end(s, ns)
        }
    }
}

/// Inserting a character moves the cursor one step right, and the character
/// stands where the cursor was.
pub proof fn lemma_insert_advances(before: Poem, after: Poem, c: char)
    requires
        before.wf(),
        edit_outcome(before, after, EditOperation::Insert(c)),
    ensures
        after.cursor == before.cursor + 1,
        after.buffer@.len() == before.buffer@.len() + 1,
        after.buffer@[before.cursor as int] == c,
{
}

/// Deleting backward removes one character and moves the cursor one step
/// left; at the start of the text it changes neither.
pub proof fn lemma_delete_backward(before: Poem, after: Poem)
    requires
        before.wf(),
        edit_outcome(before, after, EditOperation::DeleteLeft),
    ensures
        before.cursor > 0 ==> after.buffer@.len() == before.buffer@.len() - 1 && after.cursor
            == before.cursor - 1,
        before.cursor == 0 ==> after.buffer@.len() == before.buffer@.len() && after.cursor == 0,
{
}

/// A line separator inserted at offset `k` leaves `k` where it was, on its
/// row and column, and the offset just after the separator opens the next
/// row at column 0.
pub proof fn lemma_newline_splits_line(s: Seq<char>, k: int)
    requires
        0 <= k <= s.len(),
    ensures
        row_of(s.insert(k, '\n'), k) == row_of(s, k),
        col_of(s.insert(k, '\n'), k) == col_of(s, k),
        row_of(s.insert(k, '\n'), k + 1) == row_of(s, k) + 1,
        col_of(s.insert(k, '\n'), k + 1) == 0,
{
    lemma_prefix_locates(s.insert(k, '\n'), s, k);
}

/// Moving down and then up again comes back to the same offset, where the
/// cursor is not on the last line and its column exists on the next line.
pub proof fn lemma_down_then_up(s: Seq<char>, k: int)
    requires
        0 <= k <= s.len(),
        line_end(s, k) < s.len(),
        col_of(s, k) <= line_end(s, line_end(s, k) + 1) - (line_end(s, k) + 1),
    ensures
        up_target(s, down_target(s, k)) == k,
{
    let le = line_end(s, k);
    let ns = le + 1;
    let d = ns + col_of(s, k);
    lemma_line_start(s, k);
    lemma_line_end(s, k);
    lemma_line_end(s, ns);
    assert(down_target(s, k) == d);
    lemma_same_line(s, ns, d);
    assert(line_start(s, ns) == ns);
    lemma_same_line(s, k, le);
    lemma_same_line(s, line_start(s, k), k);
}

impl Poem {
    /// The cursor lies within the text.
    pub open spec fn wf(&self) -> bool {
        self.cursor <= self.buffer@.len()
    }

    /// A buffer holding `text`, with the cursor at its start and no file name.
    pub fn from_str(text: &str) -> (r: Poem)
        ensures
            r.buffer@ == text@,
            r.cursor == 0,
            r.target_line_pos == 0,
            r.name is None,
            r.wf(),
    {
        Poem { buffer: chars_of(text), cursor: 0, target_line_pos: 0, name: None }
    }

    /// The same buffer, saved to the file `name`.
    pub fn with_name(self, name: String) -> (r: Poem)
        ensures
            r.buffer == self.buffer,
            r.cursor == self.cursor,
            r.target_line_pos == self.target_line_pos,
            r.name matches Some(n) && n@ == name@,
    {
        Poem { name: Some(chars_of(name.as_str())), ..self }
    }

    /// Applies one edit at the cursor.
    pub fn modify(&mut self, edit: EditOperation)
        requires
            old(self).wf(),
        ensures
            edit_outcome(*old(self), *final(self), edit),
    {
        match edit {
            EditOperation::Insert(c) => {
                self.buffer.insert(self.cursor, c);
                // the new length is a usize, so the cursor below it can advance
                let len = self.buffer.len();
                assert(self.cursor < len);
                self.cursor += 1;
            },
            EditOperation::DeleteRight => {
                if self.cursor == self.buffer.len() {
                    return ;
                }
                self.buffer.remove(self.cursor);
            },
            EditOperation::DeleteLeft => {
                if self.cursor == 0 {
                    return ;
                }
                self.cursor -= 1;
                if self.cursor + 1 == self.buffer.len() {
                    self.buffer.pop();
                    assert(self.buffer@ =~= old(self).buffer@.remove(self.cursor as int));
                } else {
                    self.buffer.remove(self.cursor);
                }
            },
            EditOperation::Newline => {
                self.buffer.insert(self.cursor, '\n');
            },
        }
    }

    /// The cursor's column and row.
    pub fn get_cursor_offset(&self) -> (r: (usize, usize))
        requires
            self.wf(),
        ensures
            r.0 == col_of(self.buffer@, self.cursor as int),
            r.1 == row_of(self.buffer@, self.cursor as int),
    {
        let mut start: usize = 0;
        let mut row: usize = 0;
        let mut i: usize = 0;
        while i < self.cursor
            invariant
                self.wf(),
                i <= self.cursor,
                start <= i,
                row <= i,
                start == line_start(self.buffer@, i as int),
                row == row_of(self.buffer@, i as int),
            decreases self.cursor - i,
        {
            if self.buffer[i] == '\n' {
                row += 1;
                start = i + 1;
            }
            i += 1;
        }
        (self.cursor - start, row)
    }

    /// Moves the cursor to the end of its line.
    pub fn cursor_end_line(&mut self)
        requires
            old(self).wf(),
        ensures
            final(self).wf(),
            moved_to(
                *old(self),
                *final(self),
                line_end(old(self).buffer@, old(self).cursor as int),
            ),
    {
        self.cursor = find_line_end(&self.buffer, self.cursor);
    }

    /// Moves the cursor to the start of its line, one step left at a time.
    pub fn cursor_start_line(&mut self)
        requires
            old(self).wf(),
        ensures
            final(self).wf(),
            moved_to(
                *old(self),
                *final(self),
                line_start(old(self).buffer@, old(self).cursor as int),
            ),
    {
        while self.get_cursor_offset().0 != 0
            invariant
                self.wf(),
                self.buffer == old(self).buffer,
                self.name == old(self).name,
                self.target_line_pos == old(self).target_line_pos,
                line_start(self.buffer@, self.cursor as int) == line_start(
                    old(self).buffer@,
                    old(self).cursor as int,
                ),
            decreases self.cursor,
        {
            proof {
                lemma_line_start(self.buffer@, self.cursor as int);
            }
            self.cursor -= 1;
        }
    }

    /// Moves the cursor one character left, staying at the start of the text.
    pub fn move_left(&mut self)
        requires
            old(self).wf(),
        ensures
            final(self).wf(),
            moved_to(*old(self), *final(self), if old(self).cursor == 0 {
                0
            } else {
                old(self).cursor - 1
            }),
    {
        if self.cursor > 0 {
            self.cursor -= 1;
        }
    }

    /// Moves the cursor one character right, staying at the end of the text.
    pub fn move_right(&mut self)
        requires
            old(self).wf(),
        ensures
            final(self).wf(),
            moved_to(*old(self), *final(self), if old(self).cursor == old(self).buffer@.len() {
                old(self).cursor as int
            } else {
                old(self).cursor + 1
            }),
    {
        if self.cursor < self.buffer.len() {
            self.cursor += 1;
        }
    }

    /// Moves the cursor to the line above, keeping its column where it can.
    pub fn move_up(&mut self)
        requires
            old(self).wf(),
        ensures
            final(self).wf(),
            moved_vertically(
                *old(self),
                *final(self),
                up_target(old(self).buffer@, old(self).cursor as int),
            ),
    {
        let (col, row) = self.get_cursor_offset();
        self.target_line_pos = col;
        proof {
            lemma_line_start(self.buffer@, self.cursor as int);
            lemma_row_zero(self.buffer@, self.cursor as int);
        }
        if row == 0 {
            self.cursor = 0;
        } else {
            let ls = self.cursor - col;
            let ps = find_line_start(&self.buffer, ls - 1);
            let prev_len = ls - 1 - ps;
            if prev_len >= self.target_line_pos {
                self.cursor = ps + self.target_line_pos;
            } else {
                self.cursor = ls - 1;
            }
        }
    }

    /// Moves the cursor to the line below, keeping its column where it can;
    /// on the last line, moves it to the end of that line.
    pub fn move_down(&mut self)
        requires
            old(self).wf(),
        ensures
            final(self).wf(),
            moved_vertically(
                *old(self),
                *final(self),
                down_target(old(self).buffer@, old(self).cursor as int),
            ),
    {
        let (col, _row) = self.get_cursor_offset();
        self.target_line_pos = col;
        let le = find_line_end(&self.buffer, self.cursor);
        if le == self.buffer.len() {
            self.cursor_end_line();
        } else {
            let ns = le + 1;
            let ne = find_line_end(&self.buffer, ns);
            if ne - ns >= self.target_line_pos {
                proof {
                    lemma_line_start(self.buffer@, self.cursor as int);
                }
                self.cursor = ns + self.target_line_pos;
            } else {
                self.cursor = ne;
            }
        }
    }
    /// Prepares a save: returns the path to write and the text to write
    /// there. A buffer without a name takes its first line as the name, and
    /// that line leaves the buffer.
    pub fn take_save_target(&mut self) -> (r: (Vec<char>, Vec<char>))
        requires
            old(self).wf(),
        ensures
            save_outcome(*old(self), *final(self), r.0@, r.1@),
    {
        match &self.name {
            Some(n) => {
                let path = copy_range(n, 0, n.len());
                let contents = copy_range(&self.buffer, 0, self.buffer.len());
                assert(path@ =~= n@);
                assert(contents@ =~= self.buffer@);
                (path, contents)
            },
            None => {
                let len = self.buffer.len();
                let le = find_line_end(&self.buffer, 0);
                let path = copy_range(&self.buffer, 0, le);
                let contents = if le < len {
                    copy_range(&self.buffer, le + 1, len)
                } else {
                    Vec::new()
                };
                assert(le < len ==> contents@ == self.buffer@.subrange(le + 1, len as int));
                assert(le == len ==> contents@ =~= Seq::<char>::empty());
                self.cursor = if self.cursor > le {
                    self.cursor - (le + 1)
                } else {
                    0
                };
                self.name = Some(copy_range(&path, 0, path.len()));
                assert(self.name.unwrap()@ =~= path@);
                self.buffer = copy_range(&contents, 0, contents.len());
                assert(self.buffer@ =~= contents@);
                (path, contents)
            },
        }
    }
}

} // verus!

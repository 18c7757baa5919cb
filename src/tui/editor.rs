//! The template editor's text buffer.
use vstd::prelude::*;
use crate::fsm::strings_view;
use crate::text::{chars_of, lit, string_of};

verus! {

/// Lines of text with a cursor (row, column in characters) and a scroll row.
#[derive(Debug, Clone)]
pub struct EditorBuffer {
    pub lines: Vec<String>,
    pub cursor_row: usize,
    pub cursor_col: usize,
    pub scroll_row: usize,
}

/// What a key press in the editor asks of its caller.
#[derive(Debug, Clone, Copy, PartialEq, Eq, Structural)]
pub enum EditorKeyResult {
    Noop,
    Save,
    Exit,
}

/// An open template: its path, buffer and save state.
#[derive(Debug, Clone)]
pub struct EditorState {
    pub path: String,
    pub buf: EditorBuffer,
    pub dirty: bool,
    pub last_save_error: Option<String>,
    pub viewport_height: usize,
}


/// `lines` joined by newlines.
pub open spec fn joined(lines: Seq<Seq<char>>) -> Seq<char>
    decreases lines.len(),
{
    if lines.len() == 0 {
        Seq::empty()
    } else if lines.len() == 1 {
        lines[0]
    } else {
        joined(lines.drop_last()) + seq!['\n'] + lines.last()
    }
}

pub open spec fn ends_nl(l: Seq<char>) -> Seq<char> {
    if l.len() > 0 && l.last() == '\n' {
        l
    } else {
        l.push('\n')
    }
}

impl EditorBuffer {
    pub open spec fn view_lines(&self) -> Seq<Seq<char>> {
        strings_view(self.lines@)
    }

    pub open spec fn len_of(&self, row: int) -> nat {
        if 0 <= row < self.lines@.len() {
            self.lines@[row]@.len()
        } else {
            0
        }
    }

    /// At least one line, and the cursor on a line, at most at its end.
    pub open spec fn wf(&self) -> bool {
        &&& self.lines@.len() > 0
        &&& self.cursor_row < self.lines@.len()
        &&& self.cursor_col <= self.len_of(self.cursor_row as int)
    }

    pub fn new(lines: Vec<String>) -> (r: Self)
        ensures
            r.wf(),
            lines@.len() > 0 ==> r.lines@ == lines@,
            lines@.len() == 0 ==> r.view_lines() == seq![Seq::<char>::empty()],
            r.cursor_row == 0 && r.cursor_col == 0 && r.scroll_row == 0,
    {
        let mut lines = lines;
        if lines.len() == 0 {
            lines.push(String::new());
            assert(strings_view(lines@) =~= seq![Seq::<char>::empty()]);
        }
        EditorBuffer { lines, cursor_row: 0, cursor_col: 0, scroll_row: 0 }
    }

    /// The text: the lines joined by newlines, ending with a newline.
    pub fn content_string(&self) -> (r: String)
        ensures
            r@ == ends_nl(joined(self.view_lines())),
    {
        let mut out: Vec<char> = Vec::new();
        let mut i: usize = 0;
        while i < self.lines.len()
            invariant
                i <= self.lines@.len(),
                out@ == joined(self.view_lines().subrange(0, i as int)),
            decreases self.lines@.len() - i,
        {
            let ghost prev = out@;
            proof {
                assert(self.view_lines().subrange(0, i + 1).drop_last() =~= self.view_lines().subrange(0, i as int));
            }
            if i > 0 {
                out.push('\n');
            }
            let mut c = chars_of(self.lines[i].as_str());
            out.append(&mut c);
            i = i + 1;
            proof {
                let s = self.view_lines().subrange(0, i as int);
                if i == 1 {
                    assert(out@ =~= s[0]);
                } else {
                    assert(out@ =~= joined(s.drop_last()) + seq!['\n'] + s.last());
                }
            }
        }
        proof {
            assert(self.view_lines().subrange(0, i as int) =~= self.view_lines());
        }
        let n = out.len();
        if n == 0 || out[n - 1] != '\n' {
            out.push('\n');
        }
        string_of(out.as_slice())
    }

    pub fn line_len_chars(&self, row: usize) -> (r: usize)
        ensures
            r == self.len_of(row as int),
    {
        if row < self.lines.len() {
            chars_of(self.lines[row].as_str()).len()
        } else {
            0
        }
    }

    pub fn move_left(&mut self)
        requires
            old(self).wf(),
        ensures
            final(self).wf(),
            final(self).lines@ == old(self).lines@,
            final(self).scroll_row == old(self).scroll_row,
            old(self).cursor_col > 0 ==> final(self).cursor_row == old(self).cursor_row
                && final(self).cursor_col == old(self).cursor_col - 1,
            old(self).cursor_col == 0 && old(self).cursor_row > 0 ==> final(self).cursor_row
                == old(self).cursor_row - 1 && final(self).cursor_col == old(self).len_of(
                old(self).cursor_row - 1,
            ),
            old(self).cursor_col == 0 && old(self).cursor_row == 0 ==> final(self).cursor_row == 0
                && final(self).cursor_col == 0,
    {
        if self.cursor_col > 0 {
            self.cursor_col = self.cursor_col - 1;
            return;
        }
        if self.cursor_row > 0 {
            self.cursor_row = self.cursor_row - 1;
            self.cursor_col = self.line_len_chars(self.cursor_row);
        }
    }

    pub fn move_right(&mut self)
        requires
            old(self).wf(),
        ensures
            final(self).wf(),
            final(self).lines@ == old(self).lines@,
            final(self).scroll_row == old(self).scroll_row,
            old(self).cursor_col < old(self).len_of(old(self).cursor_row as int) ==> final(self).cursor_row == old(self).cursor_row && final(self).cursor_col == old(self).cursor_col
                + 1,
            old(self).cursor_col == old(self).len_of(old(self).cursor_row as int) && old(self).cursor_row + 1 < old(self).lines@.len() ==> final(self).cursor_row == old(self).cursor_row + 1 && final(self).cursor_col == 0,
            old(self).cursor_col == old(self).len_of(old(self).cursor_row as int) && old(self).cursor_row + 1 >= old(self).lines@.len() ==> final(self).cursor_row == old(self).cursor_row && final(self).cursor_col == old(self).cursor_col,
    {
        let len = self.line_len_chars(self.cursor_row);
        if self.cursor_col < len {
            self.cursor_col = self.cursor_col + 1;
            return;
        }
        if self.cursor_row < self.lines.len() - 1 {
            self.cursor_row = self.cursor_row + 1;
            self.cursor_col = 0;
        }
    }

    pub fn move_up(&mut self)
        requires
            old(self).wf(),
        ensures
            final(self).wf(),
            final(self).lines@ == old(self).lines@,
            final(self).scroll_row == old(self).scroll_row,
            final(self).cursor_row == if old(self).cursor_row > 0 {
                old(self).cursor_row - 1
            } else {
                0
            },
            final(self).cursor_col == vstd::math::min(
                old(self).cursor_col as int,
                old(self).len_of(final(self).cursor_row as int) as int,
            ),
    {
        self.cursor_row = if self.cursor_row > 0 {
            self.cursor_row - 1
        } else {
            0
        };
        let len = self.line_len_chars(self.cursor_row);
        if self.cursor_col > len {
            self.cursor_col = len;
        }
    }

    pub fn move_down(&mut self)
        requires
            old(self).wf(),
        ensures
            final(self).wf(),
            final(self).lines@ == old(self).lines@,
            final(self).scroll_row == old(self).scroll_row,
            final(self).cursor_row == vstd::math::min(
                old(self).cursor_row + 1,
                old(self).lines@.len() - 1,
            ),
            final(self).cursor_col == vstd::math::min(
                old(self).cursor_col as int,
                old(self).len_of(final(self).cursor_row as int) as int,
            ),
    {
        let max = self.lines.len() - 1;
        self.cursor_row = if self.cursor_row + 1 < max {
            self.cursor_row + 1
        } else {
            max
        };
        let len = self.line_len_chars(self.cursor_row);
        if self.cursor_col > len {
            self.cursor_col = len;
        }
    }

    /// Replaces line `row`.
    fn set_line(&mut self, row: usize, text: &Vec<char>)
        requires
            row < old(self).lines@.len(),
        ensures
            final(self).view_lines() == old(self).view_lines().update(row as int, text@),
            final(self).lines@.len() == old(self).lines@.len(),
            final(self).len_of(row as int) == text@.len(),
            forall|i: int| 0 <= i < old(self).lines@.len() && i != row ==> final(self).len_of(i) == old(self).len_of(i),
            final(self).cursor_row == old(self).cursor_row,
            final(self).cursor_col == old(self).cursor_col,
            final(self).scroll_row == old(self).scroll_row,
    {
        let s = string_of(text.as_slice());
        self.lines.set(row, s);
        assert(self.view_lines() =~= old(self).view_lines().update(row as int, text@));
        assert forall|i: int| 0 <= i < old(self).lines@.len() && i != row implies self.len_of(i) == old(self).len_of(i) by {
            assert(self.lines@[i] == old(self).lines@[i]);
        }
    }

    /// Inserts `ch` at the cursor and moves past it.
    pub fn insert_char(&mut self, ch: char)
        requires
            old(self).wf(),
        ensures
            final(self).wf(),
            final(self).view_lines() == old(self).view_lines().update(
                old(self).cursor_row as int,
                old(self).view_lines()[old(self).cursor_row as int].insert(
                    old(self).cursor_col as int,
                    ch,
                ),
            ),
            final(self).cursor_row == old(self).cursor_row,
            final(self).cursor_col == old(self).cursor_col + 1,
            final(self).scroll_row == old(self).scroll_row,
    {
        let row = self.cursor_row;
        let col = self.cursor_col;
        let mut v = chars_of(self.lines[row].as_str());
        v.insert(col, ch);
        let n = v.len();
        self.set_line(row, &v);
        self.cursor_col = col + 1;
    }

    /// Splits the cursor's line at the cursor; the cursor goes to the start
    /// of the new line.
    pub fn insert_newline(&mut self)
        requires
            old(self).wf(),
        ensures
            final(self).wf(),
            final(self).view_lines() == old(self).view_lines().subrange(0, old(self).cursor_row as int)
                + seq![
                old(self).view_lines()[old(self).cursor_row as int].subrange(0, old(self).cursor_col as int),
                old(self).view_lines()[old(self).cursor_row as int].subrange(
                    old(self).cursor_col as int,
                    old(self).len_of(old(self).cursor_row as int) as int,
                ),
            ] + old(self).view_lines().subrange(old(self).cursor_row + 1, old(self).lines@.len() as int),
            final(self).cursor_row == old(self).cursor_row + 1,
            final(self).cursor_col == 0,
            final(self).scroll_row == old(self).scroll_row,
    {
        let row = self.cursor_row;
        let col = self.cursor_col;
        let v = chars_of(self.lines[row].as_str());
        let head = crate::text::slice_vec(v.as_slice(), 0, col);
        let tail = crate::text::slice_vec(v.as_slice(), col, v.len());
        let ghost old_lines = self.view_lines();
        self.set_line(row, &head);
        let ghost mid = self.view_lines();
        let n = self.lines.len();
        let ts = string_of(tail.as_slice());
        self.lines.insert(row + 1, ts);
        assert(self.view_lines() =~= mid.insert(row + 1, tail@));
        self.cursor_row = row + 1;
        self.cursor_col = 0;
        assert(self.view_lines() =~= old_lines.subrange(0, row as int) + seq![head@, tail@]
            + old_lines.subrange(row + 1, old_lines.len() as int));
    }

    /// Deletes the character before the cursor, joining with the previous
    /// line at the start of a line.
    pub fn backspace(&mut self)
        requires
            old(self).wf(),
        ensures
            final(self).wf(),
            final(self).scroll_row == old(self).scroll_row,
            old(self).cursor_col > 0 ==> final(self).view_lines() == old(self).view_lines().update(
                old(self).cursor_row as int,
                old(self).view_lines()[old(self).cursor_row as int].remove(old(self).cursor_col - 1),
            ) && final(self).cursor_row == old(self).cursor_row && final(self).cursor_col == old(self).cursor_col - 1,
            old(self).cursor_col == 0 && old(self).cursor_row == 0 ==> final(self).view_lines()
                == old(self).view_lines() && final(self).cursor_row == 0 && final(self).cursor_col
                == 0,
            old(self).cursor_col == 0 && old(self).cursor_row > 0 ==> final(self).view_lines()
                == old(self).view_lines().update(
                old(self).cursor_row - 1,
                old(self).view_lines()[old(self).cursor_row - 1] + old(self).view_lines()[old(self).cursor_row as int],
            ).remove(old(self).cursor_row as int) && final(self).cursor_row == old(self).cursor_row
                - 1 && final(self).cursor_col == old(self).len_of(old(self).cursor_row - 1),
    {
        let row = self.cursor_row;
        let col = self.cursor_col;
        if col > 0 {
            let mut v = chars_of(self.lines[row].as_str());
            v.remove(col - 1);
            self.set_line(row, &v);
            self.cursor_col = col - 1;
            return;
        }
        if row == 0 {
            return;
        }
        let ghost old_lines = self.view_lines();
        let prev = row - 1;
        let prev_len = self.line_len_chars(prev);
        let mut a = chars_of(self.lines[prev].as_str());
        let mut b = chars_of(self.lines[row].as_str());
        a.append(&mut b);
        self.set_line(prev, &a);
        let _ = self.lines.remove(row);
        self.cursor_row = prev;
        self.cursor_col = prev_len;
        assert(self.view_lines() =~= old_lines.update(prev as int, old_lines[prev as int] + old_lines[row as int]).remove(row as int));
    }

    /// Deletes the character at the cursor, joining with the next line at the
    /// end of a line.
    pub fn delete(&mut self)
        requires
            old(self).wf(),
        ensures
            final(self).wf(),
            final(self).cursor_row == old(self).cursor_row,
            final(self).cursor_col == old(self).cursor_col,
            final(self).scroll_row == old(self).scroll_row,
            old(self).cursor_col < old(self).len_of(old(self).cursor_row as int) ==> final(self).view_lines()
                == old(self).view_lines().update(
                old(self).cursor_row as int,
                old(self).view_lines()[old(self).cursor_row as int].remove(old(self).cursor_col as int),
            ),
            old(self).cursor_col == old(self).len_of(old(self).cursor_row as int) && old(self).cursor_row + 1 < old(self).lines@.len() ==> final(self).view_lines() == old(self).view_lines().update(
                old(self).cursor_row as int,
                old(self).view_lines()[old(self).cursor_row as int] + old(self).view_lines()[old(self).cursor_row + 1],
            ).remove(old(self).cursor_row + 1),
            old(self).cursor_col == old(self).len_of(old(self).cursor_row as int) && old(self).cursor_row + 1 >= old(self).lines@.len() ==> final(self).view_lines() == old(self).view_lines(),
    {
        let row = self.cursor_row;
        let col = self.cursor_col;
        let len = self.line_len_chars(row);
        if col < len {
            let mut v = chars_of(self.lines[row].as_str());
            v.remove(col);
            self.set_line(row, &v);
            return;
        }
        let n = self.lines.len();
        if row >= n - 1 {
            return;
        }
        let ghost old_lines = self.view_lines();
        let mut a = chars_of(self.lines[row].as_str());
        let mut b = chars_of(self.lines[row + 1].as_str());
        a.append(&mut b);
        self.set_line(row, &a);
        let _ = self.lines.remove(row + 1);
        assert(self.view_lines() =~= old_lines.update(row as int, old_lines[row as int] + old_lines[row + 1]).remove(row + 1));
    }

    /// Scrolls so that the cursor row is within a view of `view_height` rows.
    pub fn ensure_visible(&mut self, view_height: usize)
        ensures
            final(self).lines@ == old(self).lines@,
            final(self).cursor_row == old(self).cursor_row,
            final(self).cursor_col == old(self).cursor_col,
            view_height == 0 ==> final(self).scroll_row == old(self).scroll_row,
            view_height > 0 ==> final(self).scroll_row <= final(self).cursor_row
                < final(self).scroll_row + view_height || (old(self).scroll_row + view_height - 1
                > usize::MAX && final(self).scroll_row == old(self).scroll_row),
            view_height > 0 && old(self).scroll_row <= old(self).cursor_row < old(self).scroll_row
                + view_height ==> final(self).scroll_row == old(self).scroll_row,
    {
        if view_height == 0 {
            return;
        }
        if self.cursor_row < self.scroll_row {
            self.scroll_row = self.cursor_row;
            return;
        }
        let h = view_height - 1;
        let bottom = if self.scroll_row <= usize::MAX - h {
            self.scroll_row + h
        } else {
            usize::MAX
        };
        if self.cursor_row > bottom {
            self.scroll_row = self.cursor_row - h;
        }
    }
}

impl EditorState {
    /// A freshly opened file, from its path and its text.
    pub fn from_text(path: String, text: &str) -> (r: Self)
        ensures
            r.buf.wf(),
            r.path == path,
            !r.dirty,
    {
        let lines = split_lines_preserve_empty(text);
        EditorState {
            path,
            buf: EditorBuffer::new(lines),
            dirty: false,
            last_save_error: None,
            viewport_height: 20,
        }
    }

    /// Records the outcome of writing `buf.content_string()` to the file.
    pub fn save(&mut self, written: Result<(), String>)
        ensures
            final(self).buf.lines@ == old(self).buf.lines@,
            written is Ok ==> !final(self).dirty && final(self).last_save_error is None,
            written is Err ==> final(self).dirty == old(self).dirty
                && final(self).last_save_error == Some(written->Err_0),
    {
        match written {
            Ok(()) => {
                self.dirty = false;
                self.last_save_error = None;
            },
            Err(e) => {
                self.last_save_error = Some(e);
            },
        }
    }
}

/// The lines of `s`, with an empty last line when `s` ends with a newline.
pub fn split_lines_preserve_empty(s: &str) -> (r: Vec<String>)
    ensures
        strings_view(r@) == (if s@.len() > 0 && s@.last() == '\n' {
            crate::fsm::lines_of(s@).push(Seq::empty())
        } else {
            crate::fsm::lines_of(s@)
        }),
{
    let mut out = crate::fsm::split_lines(s);
    let v = chars_of(s);
    let n = v.len();
    if n > 0 && v[n - 1] == '\n' {
        let ghost prev = out@;
        out.push(String::new());
        assert(strings_view(out@) =~= strings_view(prev).push(Seq::<char>::empty()));
    }
    out
}

/// A key of the keyboard, as the editor sees it.
#[derive(Debug, Clone, Copy, PartialEq, Eq, Structural)]
pub enum KeyCode {
    Esc,
    Up,
    Down,
    Left,
    Right,
    Enter,
    Backspace,
    Delete,
    Tab,
    Char(char),
    Other,
}

/// A key press with its modifiers.
#[derive(Debug, Clone, Copy, PartialEq, Eq, Structural)]
pub struct KeyPress {
    pub code: KeyCode,
    pub ctrl: bool,
    pub alt: bool,
}

/// Whether a key press edits the text (and so marks the file dirty).
pub open spec fn edits(k: KeyPress) -> bool {
    !k.ctrl && match k.code {
        KeyCode::Enter | KeyCode::Backspace | KeyCode::Delete | KeyCode::Tab => true,
        KeyCode::Char(c) => !k.alt && !(c == 'h' || c == 'j' || c == 'k' || c == 'l'),
        _ => false,
    }
}

impl EditorState {
    /// Applies a key press: Ctrl-S asks to save, Esc to leave; arrows and
    /// `h`/`j`/`k`/`l` move; Enter, Backspace, Delete, Tab and other
    /// characters edit.
    pub fn apply_key(&mut self, key: KeyPress) -> (r: EditorKeyResult)
        requires
            old(self).buf.wf(),
        ensures
            final(self).buf.wf(),
            r == (if key.ctrl && (key.code == KeyCode::Char('s') || key.code == KeyCode::Char('S')) {
                EditorKeyResult::Save
            } else if !key.ctrl && key.code == KeyCode::Esc {
                EditorKeyResult::Exit
            } else {
                EditorKeyResult::Noop
            }),
            edits(key) ==> final(self).dirty,
            !edits(key) ==> final(self).dirty == old(self).dirty && final(self).buf.lines@ == old(self).buf.lines@,
    {
        if key.ctrl {
            return match key.code {
                KeyCode::Char('s') | KeyCode::Char('S') => EditorKeyResult::Save,
                _ => EditorKeyResult::Noop,
            };
        }
        let h = self.viewport_height;
        match key.code {
            KeyCode::Esc => EditorKeyResult::Exit,
            KeyCode::Up | KeyCode::Char('k') => {
                self.buf.move_up();
                self.buf.ensure_visible(h);
                EditorKeyResult::Noop
            },
            KeyCode::Down | KeyCode::Char('j') => {
                self.buf.move_down();
                self.buf.ensure_visible(h);
                EditorKeyResult::Noop
            },
            KeyCode::Left | KeyCode::Char('h') => {
                self.buf.move_left();
                self.buf.ensure_visible(h);
                EditorKeyResult::Noop
            },
            KeyCode::Right | KeyCode::Char('l') => {
                self.buf.move_right();
                self.buf.ensure_visible(h);
                EditorKeyResult::Noop
            },
            KeyCode::Enter => {
                self.buf.insert_newline();
                self.dirty = true;
                self.buf.ensure_visible(h);
                EditorKeyResult::Noop
            },
            KeyCode::Backspace => {
                self.buf.backspace();
                self.dirty = true;
                self.buf.ensure_visible(h);
                EditorKeyResult::Noop
            },
            KeyCode::Delete => {
                self.buf.delete();
                self.dirty = true;
                self.buf.ensure_visible(h);
                EditorKeyResult::Noop
            },
            KeyCode::Tab => {
                self.buf.insert_char('\t');
                self.dirty = true;
                EditorKeyResult::Noop
            },
            KeyCode::Char(ch) => {
                if key.alt {
                    return EditorKeyResult::Noop;
                }
                self.buf.insert_char(ch);
                self.dirty = true;
                EditorKeyResult::Noop
            },
            KeyCode::Other => EditorKeyResult::Noop,
        }
    }
}

} // verus!

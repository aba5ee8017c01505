//! The editor: a cursor that edits a text buffer, and the corner of the
//! window through which the text is seen.

use vstd::prelude::*;
use crate::buffer::TextBuffer;
use crate::lines::{
    lemma_line_bounds, lemma_newlines_bound, lemma_without_one, line_count, line_len, line_text,
    valid_place,
};
use crate::model;
use crate::model::{Doc, Key, PAGE_ROWS};
use crate::position::Position;

verus! {

/// A cursor in a text, and the scroll offset: the row and the column of the
/// text that stand in the upper left corner of the window.
#[derive(Debug, Clone, Copy)]
pub struct Editor {
    pub cursor: Position,
    pub scroll_offset: Position,
}

/// Where a window of `extent` rows or columns begins after it has followed
/// the cursor: at the cursor where the cursor stood before the window, so far
/// on that the cursor is the last that shows where it stood behind the
/// window, and where it began otherwise.
pub open spec fn reconciled(scroll: int, cursor: int, extent: int) -> int {
    if cursor < scroll {
        cursor
    } else if cursor >= scroll + extent {
        cursor - (extent - 1)
    } else {
        scroll
    }
}

/// The number of lines that show in a window of `height` rows whose first
/// row is line `scroll` of a text of `count` lines.
pub open spec fn visible_count(scroll: int, height: int, count: int) -> int {
    if scroll >= count {
        0
    } else if scroll + height <= count {
        height
    } else {
        count - scroll
    }
}

/// The window of `extent` rows or columns that begins at `scroll` shows
/// `cursor`.
pub open spec fn shows(scroll: int, cursor: int, extent: int) -> bool {
    scroll <= cursor < scroll + extent
}

impl Editor {
    /// The text with this editor's cursor in it.
    pub open spec fn doc(&self, text: Seq<char>) -> Doc {
        Doc { text: text, cursor: self.cursor@ }
    }

    /// The cursor stands on a line of the text, and not behind its end.
    pub open spec fn cursor_valid(&self, text: Seq<char>) -> bool {
        valid_place(text, self.cursor@)
    }

    /// An editor with the cursor and the window at the start of the text.
    pub fn new() -> (e: Self)
        ensures
            e.cursor == (Position { row: 0, col: 0 }),
            e.scroll_offset == (Position { row: 0, col: 0 }),
    {
        Self { cursor: Position::new(0, 0), scroll_offset: Position::new(0, 0) }
    }

    /// Does what the key asks for; see [`model::step`].
    pub fn handle_input(&mut self, key: Key, content: &mut TextBuffer)
        requires
            old(self).cursor_valid(old(content)@),
        ensures
            final(self).doc(final(content)@) == model::step(old(self).doc(old(content)@), key),
            final(self).cursor_valid(final(content)@),
            final(self).scroll_offset == old(self).scroll_offset,
    {
        proof {
            model::lemma_step_valid(self.doc(content@), key);
        }
        match key {
            Key::Char(c) => {
                if c != '\n' {
                    self.insert_char(c, content);
                }
            },
            Key::Ctrl(_) => {},
            Key::Backspace => {
                self.delete_char(content);
            },
            Key::Delete => {
                self.delete_char_forward(content);
            },
            Key::Enter => {
                self.insert_newline(content);
            },
            Key::Up => {
                self.move_cursor_up(content);
            },
            Key::Down => {
                self.move_cursor_down(content);
            },
            Key::Left => {
                self.move_cursor_left(content);
            },
            Key::Right => {
                self.move_cursor_right(content);
            },
            Key::Home => {
                self.move_to_line_start();
            },
            Key::End => {
                self.move_to_line_end(content);
            },
            Key::PageUp => {
                self.page_up(content);
            },
            Key::PageDown => {
                self.page_down(content);
            },
            Key::Tab => {},
            Key::F(_) => {},
            Key::Other => {},
        }
    }

    /// Inserts `c` at the cursor and moves the cursor behind it.
    pub fn insert_char(&mut self, c: char, content: &mut TextBuffer)
        requires
            old(self).cursor_valid(old(content)@),
            c != '\n',
        ensures
            final(self).doc(final(content)@) == model::insert_char(
                old(self).doc(old(content)@),
                c,
            ),
            final(self).cursor_valid(final(content)@),
            final(self).scroll_offset == old(self).scroll_offset,
    {
        proof {
            model::lemma_insert_char_valid(self.doc(content@), c);
            lemma_line_bounds(content@, self.cursor.row as int);
        }
        let char_idx = self.get_char_index(content);
        content.insert(char_idx, c).unwrap();
        self.cursor.col += 1;
    }

    /// Breaks the line at the cursor and moves the cursor to the start of the
    /// line that this opens.
    pub fn insert_newline(&mut self, content: &mut TextBuffer)
        requires
            old(self).cursor_valid(old(content)@),
        ensures
            final(self).doc(final(content)@) == model::insert_newline(
                old(self).doc(old(content)@),
            ),
            final(self).cursor_valid(final(content)@),
            final(self).scroll_offset == old(self).scroll_offset,
    {
        proof {
            model::lemma_insert_newline_valid(self.doc(content@));
            lemma_newlines_bound(content@, content@.len() as int);
        }
        let char_idx = self.get_char_index(content);
        content.insert(char_idx, '\n').unwrap();
        self.cursor.row += 1;
        self.cursor.col = 0;
    }

    /// Deletes the character before the cursor; at the start of a line, joins
    /// the line to the one above.
    pub fn delete_char(&mut self, content: &mut TextBuffer)
        requires
            old(self).cursor_valid(old(content)@),
        ensures
            final(self).doc(final(content)@) == model::delete_char(old(self).doc(old(content)@)),
            final(self).cursor_valid(final(content)@),
            final(self).scroll_offset == old(self).scroll_offset,
    {
        proof {
            model::lemma_delete_char_valid(self.doc(content@));
        }
        if self.cursor.col > 0 {
            let char_idx = self.get_char_index(content);
            proof {
                lemma_without_one(content@, char_idx - 1);
            }
            content.remove(char_idx - 1, char_idx).unwrap();
            self.cursor.col -= 1;
        } else if self.cursor.row > 0 {
            let line_start = content.line_to_char(self.cursor.row).unwrap();
            let prev_line_len = content.line_len(self.cursor.row - 1).unwrap();
            proof {
                lemma_without_one(content@, line_start - 1);
            }
            content.remove(line_start - 1, line_start).unwrap();
            self.cursor.row -= 1;
            self.cursor.col = prev_line_len;
        }
    }

    /// Deletes the character at the cursor, if there is one.
    pub fn delete_char_forward(&mut self, content: &mut TextBuffer)
        requires
            old(self).cursor_valid(old(content)@),
        ensures
            final(self).doc(final(content)@) == model::delete_char_forward(
                old(self).doc(old(content)@),
            ),
            final(self).cursor_valid(final(content)@),
            final(self).cursor == old(self).cursor,
            final(self).scroll_offset == old(self).scroll_offset,
    {
        proof {
            model::lemma_delete_char_forward_valid(self.doc(content@));
        }
        let char_idx = self.get_char_index(content);
        if char_idx < content.length() {
            proof {
                lemma_without_one(content@, char_idx as int);
            }
            content.remove(char_idx, char_idx + 1).unwrap();
        }
    }

    /// Moves the cursor one line up.
    pub fn move_cursor_up(&mut self, content: &TextBuffer)
        requires
            old(self).cursor_valid(content@),
        ensures
            final(self).doc(content@) == model::move_cursor_up(old(self).doc(content@)),
            final(self).cursor_valid(content@),
            final(self).scroll_offset == old(self).scroll_offset,
    {
        proof {
            model::lemma_moves_valid(self.doc(content@));
        }
        if self.cursor.row > 0 {
            self.cursor.row -= 1;
            let line_len = content.line_len(self.cursor.row).unwrap();
            if line_len < self.cursor.col {
                self.cursor.col = line_len;
            }
        }
    }

    /// Moves the cursor one line down.
    pub fn move_cursor_down(&mut self, content: &TextBuffer)
        requires
            old(self).cursor_valid(content@),
        ensures
            final(self).doc(content@) == model::move_cursor_down(old(self).doc(content@)),
            final(self).cursor_valid(content@),
            final(self).scroll_offset == old(self).scroll_offset,
    {
        proof {
            model::lemma_moves_valid(self.doc(content@));
        }
        if self.cursor.row < content.line_count() - 1 {
            self.cursor.row += 1;
            let line_len = content.line_len(self.cursor.row).unwrap();
            if line_len < self.cursor.col {
                self.cursor.col = line_len;
            }
        }
    }

    /// Moves the cursor one character back.
    pub fn move_cursor_left(&mut self, content: &TextBuffer)
        requires
            old(self).cursor_valid(content@),
        ensures
            final(self).doc(content@) == model::move_cursor_left(old(self).doc(content@)),
            final(self).cursor_valid(content@),
            final(self).scroll_offset == old(self).scroll_offset,
    {
        proof {
            model::lemma_moves_valid(self.doc(content@));
        }
        if self.cursor.col > 0 {
            self.cursor.col -= 1;
        } else if self.cursor.row > 0 {
            self.cursor.row -= 1;
            self.cursor.col = content.line_len(self.cursor.row).unwrap();
        }
    }

    /// Moves the cursor one character on.
    pub fn move_cursor_right(&mut self, content: &TextBuffer)
        requires
            old(self).cursor_valid(content@),
        ensures
            final(self).doc(content@) == model::move_cursor_right(old(self).doc(content@)),
            final(self).cursor_valid(content@),
            final(self).scroll_offset == old(self).scroll_offset,
    {
        proof {
            model::lemma_moves_valid(self.doc(content@));
        }
        let line_len = content.line_len(self.cursor.row).unwrap();
        if self.cursor.col < line_len {
            self.cursor.col += 1;
        } else if self.cursor.row < content.line_count() - 1 {
            self.cursor.row += 1;
            self.cursor.col = 0;
        }
    }

    /// Moves the cursor to the start of its line.
    pub fn move_to_line_start(&mut self)
        ensures
            final(self).cursor == (Position { row: old(self).cursor.row, col: 0 }),
            final(self).scroll_offset == old(self).scroll_offset,
            forall|text: Seq<char>|
                final(self).doc(text) == model::move_to_line_start(old(self).doc(text)),
    {
        self.cursor.col = 0;
    }

    /// Moves the cursor to the end of its line.
    pub fn move_to_line_end(&mut self, content: &TextBuffer)
        requires
            old(self).cursor_valid(content@),
        ensures
            final(self).doc(content@) == model::move_to_line_end(old(self).doc(content@)),
            final(self).cursor_valid(content@),
            final(self).scroll_offset == old(self).scroll_offset,
    {
        proof {
            model::lemma_moves_valid(self.doc(content@));
        }
        self.cursor.col = content.line_len(self.cursor.row).unwrap();
    }

    /// Moves the cursor a page up: line by line, so that the column is held
    /// back by every line on the way.
    pub fn page_up(&mut self, content: &TextBuffer)
        requires
            old(self).cursor_valid(content@),
        ensures
            final(self).doc(content@) == model::page_up(old(self).doc(content@)),
            final(self).cursor_valid(content@),
            final(self).scroll_offset == old(self).scroll_offset,
    {
        let ghost start = self.doc(content@);
        let mut i: usize = 0;
        while i < PAGE_ROWS
            invariant
                0 <= i <= PAGE_ROWS,
                self.cursor_valid(content@),
                self.scroll_offset == old(self).scroll_offset,
                model::move_up_by(self.doc(content@), (PAGE_ROWS - i) as nat) == model::page_up(
                    start,
                ),
            decreases PAGE_ROWS - i,
        {
            self.move_cursor_up(content);
            i += 1;
        }
    }

    /// Moves the cursor a page down: line by line, so that the column is held
    /// back by every line on the way.
    pub fn page_down(&mut self, content: &TextBuffer)
        requires
            old(self).cursor_valid(content@),
        ensures
            final(self).doc(content@) == model::page_down(old(self).doc(content@)),
            final(self).cursor_valid(content@),
            final(self).scroll_offset == old(self).scroll_offset,
    {
        let ghost start = self.doc(content@);
        let mut i: usize = 0;
        while i < PAGE_ROWS
            invariant
                0 <= i <= PAGE_ROWS,
                self.cursor_valid(content@),
                self.scroll_offset == old(self).scroll_offset,
                model::move_down_by(self.doc(content@), (PAGE_ROWS - i) as nat)
                    == model::page_down(start),
            decreases PAGE_ROWS - i,
        {
            self.move_cursor_down(content);
            i += 1;
        }
    }

    /// The offset in the text at which the cursor stands.
    pub fn get_char_index(&self, content: &TextBuffer) -> (n: usize)
        requires
            self.cursor_valid(content@),
        ensures
            n == model::cursor_offset(self.doc(content@)),
            n <= content@.len(),
    {
        content.position_to_offset(self.cursor).unwrap()
    }

    /// The lines that show in a window of `height` rows: those from the
    /// scroll row on, as many as the window has rows and the text has lines.
    pub fn get_visible_lines(&self, content: &TextBuffer, height: usize) -> (lines: Vec<String>)
        ensures
            lines@.len() == visible_count(
                self.scroll_offset.row as int,
                height as int,
                line_count(content@) as int,
            ),
            forall|i: int|
                0 <= i < lines@.len() ==> (#[trigger] lines@[i])@ == line_text(
                    content@,
                    self.scroll_offset.row + i,
                ),
    {
        let start_line = self.scroll_offset.row;
        let count = content.line_count();
        let mut lines: Vec<String> = Vec::new();
        if start_line >= count {
            return lines;
        }
        let end_line = if height < count - start_line {
            start_line + height
        } else {
            count
        };
        let mut i: usize = start_line;
        while i < end_line
            invariant
                start_line <= i <= end_line <= count,
                count == line_count(content@),
                start_line == self.scroll_offset.row,
                lines@.len() == i - start_line,
                forall|j: int|
                    0 <= j < lines@.len() ==> (#[trigger] lines@[j])@ == line_text(
                        content@,
                        start_line + j,
                    ),
            decreases end_line - i,
        {
            lines.push(content.line(i).unwrap());
            i += 1;
        }
        lines
    }

    /// Moves the window so that it shows the cursor, and no further than
    /// that takes; see [`reconciled`].
    pub fn ensure_cursor_visible(&mut self, _content: &TextBuffer, width: usize, height: usize)
        requires
            width > 0,
            height > 0,
        ensures
            final(self).cursor == old(self).cursor,
            final(self).scroll_offset.row == reconciled(
                old(self).scroll_offset.row as int,
                old(self).cursor.row as int,
                height as int,
            ),
            final(self).scroll_offset.col == reconciled(
                old(self).scroll_offset.col as int,
                old(self).cursor.col as int,
                width as int,
            ),
            shows(
                final(self).scroll_offset.row as int,
                final(self).cursor.row as int,
                height as int,
            ),
            shows(
                final(self).scroll_offset.col as int,
                final(self).cursor.col as int,
                width as int,
            ),
    {
        if self.cursor.row < self.scroll_offset.row {
            self.scroll_offset.row = self.cursor.row;
        } else if self.cursor.row - self.scroll_offset.row >= height {
            self.scroll_offset.row = self.cursor.row - (height - 1);
        }
        if self.cursor.col < self.scroll_offset.col {
            self.scroll_offset.col = self.cursor.col;
        } else if self.cursor.col - self.scroll_offset.col >= width {
            self.scroll_offset.col = self.cursor.col - (width - 1);
        }
    }

    /// Where the cursor stands in the window, counted from the window's
    /// corner, or `None` where it stands outside a window of `width` columns
    /// and `height` rows.
    pub fn cursor_in_window(&self, width: usize, height: usize) -> (at: Option<Position>)
        ensures
            at is Some <==> shows(
                self.scroll_offset.row as int,
                self.cursor.row as int,
                height as int,
            ) && shows(self.scroll_offset.col as int, self.cursor.col as int, width as int),
            at matches Some(p) ==> p.row == self.cursor.row - self.scroll_offset.row && p.col
                == self.cursor.col - self.scroll_offset.col,
    {
        if self.cursor.row < self.scroll_offset.row || self.cursor.col < self.scroll_offset.col {
            return None;
        }
        let row = self.cursor.row - self.scroll_offset.row;
        let col = self.cursor.col - self.scroll_offset.col;
        if row < height && col < width {
            Some(Position::new(row, col))
        } else {
            None
        }
    }

    /// The number to print beside the `index`-th line of the window, lines
    /// being numbered from one; `None` where the text has no such line.
    pub fn line_number(&self, content: &TextBuffer, index: usize) -> (number: Option<usize>)
        ensures
            number is Some <==> self.scroll_offset.row + index < line_count(content@),
            number matches Some(n) ==> n == self.scroll_offset.row + index + 1,
    {
        let count = content.line_count();
        if self.scroll_offset.row < count && index < count - self.scroll_offset.row {
            Some(self.scroll_offset.row + index + 1)
        } else {
            None
        }
    }
}

/// A window follows the cursor: whatever the window and the cursor were,
/// moved as [`reconciled`] says a window of at least one row or column shows
/// the cursor. It moves only where it must: a window that showed the cursor
/// stays, and so does one at the start of a text that it holds in full.
pub proof fn lemma_reconciled_shows(scroll: int, cursor: int, extent: int)
    requires
        extent >= 1,
    ensures
        shows(reconciled(scroll, cursor, extent), cursor, extent),
        shows(scroll, cursor, extent) ==> reconciled(scroll, cursor, extent) == scroll,
        scroll == 0 && 0 <= cursor < extent ==> reconciled(scroll, cursor, extent) == 0,
{
}

} // verus!

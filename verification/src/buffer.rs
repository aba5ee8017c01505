//! The text buffer: a rope of characters, read by offset and by line.

use ropey::Rope;
use vstd::prelude::*;
use crate::lines::{
    is_line_start, lemma_insert_line_count, lemma_line_bounds, lemma_line_start_unique,
    lemma_offset_on_line, lemma_remove_line_count, line_count, line_len, line_start, line_text, newline_weight,
    newlines_before, offset_of, place_of, valid_place, without_range,
};
use crate::position::Position;
use crate::rope::{
    rope_char_to_line, rope_chars, rope_from_str, rope_insert_char, rope_len_chars,
    rope_len_lines, rope_line, rope_line_to_char, rope_new, rope_remove, rope_to_string,
};

verus! {

/// Why a call on a [`TextBuffer`] was refused.
#[derive(Debug, Clone, Copy, PartialEq, Eq, Structural)]
pub enum BufferError {
    /// An offset or a row lies outside the buffer.
    OutOfRange,
}

/// A text, held in a rope. Its view is the sequence of its characters.
pub struct TextBuffer {
    rope: Rope,
}

impl View for TextBuffer {
    type V = Seq<char>;

    closed spec fn view(&self) -> Seq<char> {
        rope_chars(self.rope)
    }
}

impl TextBuffer {
    /// The empty buffer: one line without characters.
    pub fn new() -> (b: Self)
        ensures
            b@ == Seq::<char>::empty(),
            line_count(b@) == 1,
    {
        let b = TextBuffer { rope: rope_new() };
        assert(newlines_before(b@, 0) == 0);
        b
    }

    /// A buffer that holds `text`.
    pub fn from_str(text: &str) -> (b: Self)
        ensures
            b@ == text@,
    {
        TextBuffer { rope: rope_from_str(text) }
    }

    /// The whole text as a string.
    pub fn text(&self) -> (text: String)
        ensures
            text@ == self@,
    {
        rope_to_string(&self.rope)
    }

    /// The number of characters.
    pub fn length(&self) -> (n: usize)
        ensures
            n == self@.len(),
    {
        rope_len_chars(&self.rope)
    }

    /// The number of lines, which is at least one.
    pub fn line_count(&self) -> (n: usize)
        ensures
            n == line_count(self@),
            n >= 1,
    {
        rope_len_lines(&self.rope)
    }

    /// Inserts `ch` so that it stands at `offset`; what stood there and behind
    /// moves one place on.
    pub fn insert(&mut self, offset: usize, ch: char) -> (res: Result<(), BufferError>)
        ensures
            offset > old(self)@.len() <==> res is Err,
            res matches Err(e) ==> e == BufferError::OutOfRange,
            res is Ok ==> final(self)@ == old(self)@.insert(offset as int, ch),
            res is Ok ==> line_count(final(self)@) == line_count(old(self)@) + newline_weight(ch),
            res is Err ==> final(self)@ == old(self)@,
            final(self)@.len() <= usize::MAX,
    {
        if offset > rope_len_chars(&self.rope) {
            return Err(BufferError::OutOfRange);
        }
        proof {
            lemma_insert_line_count(self@, offset as int, ch);
        }
        rope_insert_char(&mut self.rope, offset, ch);
        // The rope reports its new length, so that length is one that a
        // `usize` holds.
        let _grown = rope_len_chars(&self.rope);
        Ok(())
    }

    /// Takes out the characters from `start` up to `end`; what stood behind
    /// them closes up.
    pub fn remove(&mut self, start: usize, end: usize) -> (res: Result<(), BufferError>)
        ensures
            (start > end || end > old(self)@.len()) <==> res is Err,
            res matches Err(e) ==> e == BufferError::OutOfRange,
            res is Ok ==> final(self)@ == without_range(old(self)@, start as int, end as int),
            res is Ok ==> line_count(final(self)@) == line_count(old(self)@) - (newlines_before(
                old(self)@,
                end as int,
            ) - newlines_before(old(self)@, start as int)),
            res is Err ==> final(self)@ == old(self)@,
    {
        if start > end || end > rope_len_chars(&self.rope) {
            return Err(BufferError::OutOfRange);
        }
        proof {
            lemma_remove_line_count(self@, start as int, end as int);
        }
        rope_remove(&mut self.rope, start, end);
        Ok(())
    }

    /// The offset of the first character of line `row`.
    pub fn line_to_char(&self, row: usize) -> (res: Result<usize, BufferError>)
        ensures
            row >= line_count(self@) <==> res is Err,
            res matches Err(e) ==> e == BufferError::OutOfRange,
            res matches Ok(n) ==> n == line_start(self@, row as int) && is_line_start(
                self@,
                row as int,
                n as int,
            ),
    {
        if row >= rope_len_lines(&self.rope) {
            return Err(BufferError::OutOfRange);
        }
        let n = rope_line_to_char(&self.rope, row);
        proof {
            lemma_line_start_unique(self@, row as int, n as int);
        }
        Ok(n)
    }

    /// The position of the character at `offset`; `offset` may be the
    /// buffer's length, which is the end of its last line.
    pub fn offset_to_position(&self, offset: usize) -> (res: Result<Position, BufferError>)
        ensures
            offset > self@.len() <==> res is Err,
            res matches Err(e) ==> e == BufferError::OutOfRange,
            res matches Ok(p) ==> p@ == place_of(self@, offset as int),
    {
        if offset > rope_len_chars(&self.rope) {
            return Err(BufferError::OutOfRange);
        }
        let row = rope_char_to_line(&self.rope, offset);
        proof {
            lemma_offset_on_line(self@, offset as int);
            lemma_line_bounds(self@, row as int);
        }
        let start = rope_line_to_char(&self.rope, row);
        proof {
            lemma_line_start_unique(self@, row as int, start as int);
        }
        Ok(Position { row, col: offset - start })
    }

    /// The offset of the character at `pos`: the start of its line and its
    /// column. The column may be the line's length.
    pub fn position_to_offset(&self, pos: Position) -> (res: Result<usize, BufferError>)
        ensures
            !valid_place(self@, pos@) <==> res is Err,
            res matches Err(e) ==> e == BufferError::OutOfRange,
            res matches Ok(n) ==> n == offset_of(self@, pos@) && n <= self@.len(),
    {
        let count = rope_len_lines(&self.rope);
        if pos.row >= count {
            return Err(BufferError::OutOfRange);
        }
        let start = rope_line_to_char(&self.rope, pos.row);
        proof {
            lemma_line_start_unique(self@, pos.row as int, start as int);
            lemma_line_bounds(self@, pos.row as int);
        }
        let end = if pos.row + 1 < count {
            let next = rope_line_to_char(&self.rope, pos.row + 1);
            proof {
                lemma_line_start_unique(self@, pos.row + 1, next as int);
            }
            next - 1
        } else {
            rope_len_chars(&self.rope)
        };
        if pos.col > end - start {
            return Err(BufferError::OutOfRange);
        }
        Ok(start + pos.col)
    }

    /// The number of characters of line `row`, its newline not counted.
    pub fn line_len(&self, row: usize) -> (res: Result<usize, BufferError>)
        ensures
            row >= line_count(self@) <==> res is Err,
            res matches Err(e) ==> e == BufferError::OutOfRange,
            res matches Ok(n) ==> n == line_len(self@, row as int),
    {
        let count = rope_len_lines(&self.rope);
        if row >= count {
            return Err(BufferError::OutOfRange);
        }
        let start = rope_line_to_char(&self.rope, row);
        proof {
            lemma_line_start_unique(self@, row as int, start as int);
            lemma_line_bounds(self@, row as int);
        }
        if row + 1 < count {
            let next = rope_line_to_char(&self.rope, row + 1);
            proof {
                lemma_line_start_unique(self@, row + 1, next as int);
            }
            Ok(next - 1 - start)
        } else {
            Ok(rope_len_chars(&self.rope) - start)
        }
    }

    /// The text of line `row`, its newline not counted.
    pub fn line(&self, row: usize) -> (res: Result<String, BufferError>)
        ensures
            row >= line_count(self@) <==> res is Err,
            res matches Err(e) ==> e == BufferError::OutOfRange,
            res matches Ok(text) ==> text@ == line_text(self@, row as int),
    {
        let count = rope_len_lines(&self.rope);
        if row >= count {
            return Err(BufferError::OutOfRange);
        }
        let raw = rope_line(&self.rope, row);
        proof {
            lemma_line_bounds(self@, row as int);
        }
        if row + 1 < count {
            let n = raw.as_str().unicode_len();
            let text = raw.as_str().substring_char(0, n - 1).to_owned();
            assert(text@ =~= line_text(self@, row as int));
            Ok(text)
        } else {
            Ok(raw)
        }
    }
}

} // verus!

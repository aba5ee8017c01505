//! The editing operations as functions on a text and a cursor, and what
//! holds of them.

use vstd::prelude::*;
use crate::lines::{
    is_line_start, lemma_insert_newlines, lemma_insert_remove, lemma_line_bounds,
    lemma_line_start_unique, lemma_offset_on_line, lemma_place_from_offset,
    lemma_remove_newlines, line_count, line_end, line_len, line_start, offset_of, place_of,
    valid_place, Place,
};

verus! {

/// A key, as the editor tells keys apart.
#[derive(Debug, Clone, Copy, PartialEq, Eq, Structural)]
pub enum Key {
    /// A character, typed without the control key.
    Char(char),
    /// A character, typed with the control key held down.
    Ctrl(char),
    Backspace,
    Delete,
    Enter,
    Up,
    Down,
    Left,
    Right,
    Home,
    End,
    PageUp,
    PageDown,
    Tab,
    /// A function key, by its number.
    F(u8),
    /// Any other key.
    Other,
}

/// A text with a cursor in it.
pub struct Doc {
    pub text: Seq<char>,
    pub cursor: Place,
}

/// The number of lines that a page key moves by.
pub const PAGE_ROWS: usize = 10;

/// The cursor stands on a line of the text, and not behind its end.
pub open spec fn valid_doc(d: Doc) -> bool {
    valid_place(d.text, d.cursor)
}

/// The offset in the text at which the cursor stands.
pub open spec fn cursor_offset(d: Doc) -> int {
    offset_of(d.text, d.cursor)
}

/// `c` enters at the cursor, and the cursor moves one column on.
pub open spec fn insert_char(d: Doc, c: char) -> Doc {
    Doc {
        text: d.text.insert(cursor_offset(d), c),
        cursor: Place { row: d.cursor.row, col: d.cursor.col + 1 },
    }
}

/// A newline enters at the cursor, and the cursor moves to the start of the
/// line that this opens.
pub open spec fn insert_newline(d: Doc) -> Doc {
    Doc {
        text: d.text.insert(cursor_offset(d), '\n'),
        cursor: Place { row: d.cursor.row + 1, col: 0 },
    }
}

/// The character before the cursor leaves. At the start of a line that is
/// the newline which ends the line above: the two lines join, and the cursor
/// stands where they meet. At the start of the text nothing changes.
pub open spec fn delete_char(d: Doc) -> Doc {
    if d.cursor.col > 0 {
        Doc {
            text: d.text.remove(cursor_offset(d) - 1),
            cursor: Place { row: d.cursor.row, col: d.cursor.col - 1 },
        }
    } else if d.cursor.row > 0 {
        Doc {
            text: d.text.remove(line_start(d.text, d.cursor.row) - 1),
            cursor: Place { row: d.cursor.row - 1, col: line_len(d.text, d.cursor.row - 1) },
        }
    } else {
        d
    }
}

/// The character at the cursor leaves, if there is one.
pub open spec fn delete_char_forward(d: Doc) -> Doc {
    if cursor_offset(d) < d.text.len() {
        Doc { text: d.text.remove(cursor_offset(d)), cursor: d.cursor }
    } else {
        d
    }
}

/// `col`, or the length of line `row` where that is less.
pub open spec fn clamped_col(s: Seq<char>, row: int, col: int) -> int {
    if col <= line_len(s, row) {
        col
    } else {
        line_len(s, row)
    }
}

/// One line up, the column held back to that line's length. On the first
/// line nothing changes.
pub open spec fn move_cursor_up(d: Doc) -> Doc {
    if d.cursor.row > 0 {
        Doc {
            text: d.text,
            cursor: Place {
                row: d.cursor.row - 1,
                col: clamped_col(d.text, d.cursor.row - 1, d.cursor.col),
            },
        }
    } else {
        d
    }
}

/// One line down, the column held back to that line's length. On the last
/// line nothing changes.
pub open spec fn move_cursor_down(d: Doc) -> Doc {
    if d.cursor.row + 1 < line_count(d.text) {
        Doc {
            text: d.text,
            cursor: Place {
                row: d.cursor.row + 1,
                col: clamped_col(d.text, d.cursor.row + 1, d.cursor.col),
            },
        }
    } else {
        d
    }
}

/// One column back; from the start of a line to the end of the line above.
/// At the start of the text nothing changes.
pub open spec fn move_cursor_left(d: Doc) -> Doc {
    if d.cursor.col > 0 {
        Doc { text: d.text, cursor: Place { row: d.cursor.row, col: d.cursor.col - 1 } }
    } else if d.cursor.row > 0 {
        Doc {
            text: d.text,
            cursor: Place { row: d.cursor.row - 1, col: line_len(d.text, d.cursor.row - 1) },
        }
    } else {
        d
    }
}

/// One column on; from the end of a line to the start of the line below. At
/// the end of the text nothing changes.
pub open spec fn move_cursor_right(d: Doc) -> Doc {
    if d.cursor.col < line_len(d.text, d.cursor.row) {
        Doc { text: d.text, cursor: Place { row: d.cursor.row, col: d.cursor.col + 1 } }
    } else if d.cursor.row + 1 < line_count(d.text) {
        Doc { text: d.text, cursor: Place { row: d.cursor.row + 1, col: 0 } }
    } else {
        d
    }
}

/// To the start of the line.
pub open spec fn move_to_line_start(d: Doc) -> Doc {
    Doc { text: d.text, cursor: Place { row: d.cursor.row, col: 0 } }
}

/// To the end of the line.
pub open spec fn move_to_line_end(d: Doc) -> Doc {
    Doc { text: d.text, cursor: Place { row: d.cursor.row, col: line_len(d.text, d.cursor.row) } }
}

/// `n` times one line up.
pub open spec fn move_up_by(d: Doc, n: nat) -> Doc
    decreases n,
{
    if n == 0 {
        d
    } else {
        move_up_by(move_cursor_up(d), (n - 1) as nat)
    }
}

/// `n` times one line down.
pub open spec fn move_down_by(d: Doc, n: nat) -> Doc
    decreases n,
{
    if n == 0 {
        d
    } else {
        move_down_by(move_cursor_down(d), (n - 1) as nat)
    }
}

/// A page up: as many single steps up as a page has rows.
pub open spec fn page_up(d: Doc) -> Doc {
    move_up_by(d, PAGE_ROWS as nat)
}

/// A page down: as many single steps down as a page has rows.
pub open spec fn page_down(d: Doc) -> Doc {
    move_down_by(d, PAGE_ROWS as nat)
}

/// What one key does to the text and the cursor. A newline typed as a
/// character, a character typed with the control key, and every key that is
/// neither a character nor one of the editing and movement keys do nothing.
pub open spec fn step(d: Doc, key: Key) -> Doc {
    match key {
        Key::Char(c) => if c == '\n' {
            d
        } else {
            insert_char(d, c)
        },
        Key::Ctrl(_) => d,
        Key::Backspace => delete_char(d),
        Key::Delete => delete_char_forward(d),
        Key::Enter => insert_newline(d),
        Key::Up => move_cursor_up(d),
        Key::Down => move_cursor_down(d),
        Key::Left => move_cursor_left(d),
        Key::Right => move_cursor_right(d),
        Key::Home => move_to_line_start(d),
        Key::End => move_to_line_end(d),
        Key::PageUp => page_up(d),
        Key::PageDown => page_down(d),
        Key::Tab => d,
        Key::F(_) => d,
        Key::Other => d,
    }
}

/// What a sequence of keys does, one after the other.
pub open spec fn run(d: Doc, keys: Seq<Key>) -> Doc
    decreases keys.len(),
{
    if keys.len() == 0 {
        d
    } else {
        step(run(d, keys.drop_last()), keys.last())
    }
}

/// A character that is no newline leaves the cursor valid, on the same line.
pub proof fn lemma_insert_char_valid(d: Doc, c: char)
    requires
        valid_doc(d),
        c != '\n',
    ensures
        valid_doc(insert_char(d, c)),
        line_count(insert_char(d, c).text) == line_count(d.text),
        line_start(insert_char(d, c).text, d.cursor.row) == line_start(d.text, d.cursor.row),
{
    let s = d.text;
    let row = d.cursor.row;
    let o = cursor_offset(d);
    let t = s.insert(o, c);
    lemma_line_bounds(s, row);
    let a = line_start(s, row);
    lemma_insert_newlines(s, o, c, a);
    lemma_insert_newlines(s, o, c, o + 1);
    lemma_insert_newlines(s, o, c, s.len() as int + 1);
    if a > 0 {
        assert(t[a - 1] == s[a - 1]);
    }
    assert(is_line_start(t, row, a));
    lemma_place_from_offset(t, row, a, o + 1);
}

/// A newline at the cursor adds one line, and the cursor is valid at the
/// start of the line below.
pub proof fn lemma_insert_newline_valid(d: Doc)
    requires
        valid_doc(d),
    ensures
        valid_doc(insert_newline(d)),
        line_count(insert_newline(d).text) == line_count(d.text) + 1,
        line_start(insert_newline(d).text, d.cursor.row + 1) == cursor_offset(d) + 1,
        line_start(insert_newline(d).text, d.cursor.row) == line_start(d.text, d.cursor.row),
{
    let s = d.text;
    let row = d.cursor.row;
    let o = cursor_offset(d);
    let t = s.insert(o, '\n');
    lemma_line_bounds(s, row);
    let a = line_start(s, row);
    lemma_insert_newlines(s, o, '\n', a);
    lemma_insert_newlines(s, o, '\n', o + 1);
    lemma_insert_newlines(s, o, '\n', s.len() as int + 1);
    if a > 0 {
        assert(t[a - 1] == s[a - 1]);
    }
    assert(t[o] == '\n');
    assert(is_line_start(t, row, a));
    assert(is_line_start(t, row + 1, o + 1));
    lemma_line_start_unique(t, row, a);
    lemma_place_from_offset(t, row + 1, o + 1, o + 1);
}

/// Deleting backward leaves the cursor valid.
pub proof fn lemma_delete_char_valid(d: Doc)
    requires
        valid_doc(d),
    ensures
        valid_doc(delete_char(d)),
        d.cursor.col > 0 ==> 0 < cursor_offset(d) <= d.text.len(),
        d.cursor.col == 0 && d.cursor.row > 0 ==> 0 < line_start(d.text, d.cursor.row)
            <= d.text.len() && d.text[line_start(d.text, d.cursor.row) - 1] == '\n',
{
    let s = d.text;
    let row = d.cursor.row;
    lemma_line_bounds(s, row);
    let a = line_start(s, row);
    if d.cursor.col > 0 {
        let p = cursor_offset(d) - 1;
        let t = s.remove(p);
        assert(s[p] != '\n');
        lemma_remove_newlines(s, p, a);
        lemma_remove_newlines(s, p, p);
        if a > 0 {
            assert(t[a - 1] == s[a - 1]);
        }
        assert(is_line_start(t, row, a));
        lemma_place_from_offset(t, row, a, p);
    } else if row > 0 {
        lemma_line_bounds(s, row - 1);
        let b = line_start(s, row - 1);
        let p = a - 1;
        assert(p == line_end(s, row - 1));
        let t = s.remove(p);
        lemma_remove_newlines(s, p, b);
        lemma_remove_newlines(s, p, p);
        if b > 0 {
            assert(t[b - 1] == s[b - 1]);
        }
        assert(is_line_start(t, row - 1, b));
        lemma_place_from_offset(t, row - 1, b, p);
    }
}

/// Deleting forward leaves the cursor valid where it stands.
pub proof fn lemma_delete_char_forward_valid(d: Doc)
    requires
        valid_doc(d),
    ensures
        valid_doc(delete_char_forward(d)),
        0 <= cursor_offset(d) <= d.text.len(),
{
    let s = d.text;
    let row = d.cursor.row;
    lemma_line_bounds(s, row);
    let a = line_start(s, row);
    let o = cursor_offset(d);
    if o < s.len() {
        let t = s.remove(o);
        lemma_remove_newlines(s, o, a);
        lemma_remove_newlines(s, o, o);
        if a > 0 {
            assert(t[a - 1] == s[a - 1]);
        }
        assert(is_line_start(t, row, a));
        lemma_place_from_offset(t, row, a, o);
    }
}

/// Every movement leaves the cursor valid.
pub proof fn lemma_moves_valid(d: Doc)
    requires
        valid_doc(d),
    ensures
        valid_doc(move_cursor_up(d)),
        valid_doc(move_cursor_down(d)),
        valid_doc(move_cursor_left(d)),
        valid_doc(move_cursor_right(d)),
        valid_doc(move_to_line_start(d)),
        valid_doc(move_to_line_end(d)),
{
    let s = d.text;
    let row = d.cursor.row;
    lemma_line_bounds(s, row);
    if row > 0 {
        lemma_line_bounds(s, row - 1);
    }
    if row + 1 < line_count(s) {
        lemma_line_bounds(s, row + 1);
    }
}

/// Steps up leave the cursor valid, the text as it is, and end on the row
/// that lies `n` above, or on the first.
pub proof fn lemma_move_up_by(d: Doc, n: nat)
    requires
        valid_doc(d),
    ensures
        valid_doc(move_up_by(d, n)),
        move_up_by(d, n).text == d.text,
        move_up_by(d, n).cursor.row == if d.cursor.row >= n {
            d.cursor.row - n
        } else {
            0
        },
        move_up_by(d, n).cursor.col <= d.cursor.col,
    decreases n,
{
    if n > 0 {
        lemma_moves_valid(d);
        lemma_move_up_by(move_cursor_up(d), (n - 1) as nat);
    }
}

/// Steps down leave the cursor valid, the text as it is, and end on the row
/// that lies `n` below, or on the last.
pub proof fn lemma_move_down_by(d: Doc, n: nat)
    requires
        valid_doc(d),
    ensures
        valid_doc(move_down_by(d, n)),
        move_down_by(d, n).text == d.text,
        move_down_by(d, n).cursor.row == if d.cursor.row + n < line_count(d.text) {
            d.cursor.row + n
        } else {
            line_count(d.text) - 1
        },
        move_down_by(d, n).cursor.col <= d.cursor.col,
    decreases n,
{
    if n > 0 {
        lemma_moves_valid(d);
        lemma_move_down_by(move_cursor_down(d), (n - 1) as nat);
    }
}

/// Whatever the key, a valid cursor stays valid.
pub proof fn lemma_step_valid(d: Doc, key: Key)
    requires
        valid_doc(d),
    ensures
        valid_doc(step(d, key)),
{
    lemma_moves_valid(d);
    match key {
        Key::Char(c) => {
            if c != '\n' {
                lemma_insert_char_valid(d, c);
            }
        },
        Key::Backspace => lemma_delete_char_valid(d),
        Key::Delete => lemma_delete_char_forward_valid(d),
        Key::Enter => lemma_insert_newline_valid(d),
        Key::PageUp => lemma_move_up_by(d, PAGE_ROWS as nat),
        Key::PageDown => lemma_move_down_by(d, PAGE_ROWS as nat),
        _ => {},
    }
}

/// Whatever the keys, and however many: after each of them the cursor stands
/// on a line of the text, and not behind that line's end.
pub proof fn lemma_run_valid(d: Doc, keys: Seq<Key>)
    requires
        valid_doc(d),
    ensures
        valid_doc(run(d, keys)),
        forall|n: int| 0 <= n <= keys.len() ==> valid_doc(#[trigger] run(d, keys.take(n))),
    decreases keys.len(),
{
    if keys.len() > 0 {
        lemma_run_valid(d, keys.drop_last());
        lemma_step_valid(run(d, keys.drop_last()), keys.last());
        assert forall|n: int| 0 <= n <= keys.len() implies valid_doc(
            #[trigger] run(d, keys.take(n)),
        ) by {
            if n < keys.len() {
                assert(keys.take(n) =~= keys.drop_last().take(n));
            } else {
                assert(keys.take(n) =~= keys);
            }
        }
    } else {
        assert forall|n: int| 0 <= n <= keys.len() implies valid_doc(
            #[trigger] run(d, keys.take(n)),
        ) by {
            assert(keys.take(n) =~= keys);
        }
    }
}

/// From a row and a column to the offset and back gives the row and the
/// column.
pub proof fn lemma_offset_round_trip(s: Seq<char>, p: Place)
    requires
        valid_place(s, p),
    ensures
        0 <= offset_of(s, p) <= s.len(),
        place_of(s, offset_of(s, p)) == p,
{
    lemma_line_bounds(s, p.row);
    lemma_place_from_offset(s, p.row, line_start(s, p.row), offset_of(s, p));
}

/// From an offset to the row and the column and back gives the offset.
pub proof fn lemma_place_round_trip(s: Seq<char>, k: int)
    requires
        0 <= k <= s.len(),
    ensures
        valid_place(s, place_of(s, k)),
        offset_of(s, place_of(s, k)) == k,
{
    lemma_offset_on_line(s, k);
}

/// A line break, and then a deletion backward from where it left the cursor,
/// give back the text and the cursor.
pub proof fn lemma_break_then_join(d: Doc)
    requires
        valid_doc(d),
    ensures
        delete_char(insert_newline(d)) == d,
{
    let s = d.text;
    let row = d.cursor.row;
    let o = cursor_offset(d);
    let e = insert_newline(d);
    lemma_line_bounds(s, row);
    lemma_insert_newline_valid(d);
    lemma_insert_remove(s, o, '\n');
    lemma_line_bounds(e.text, row);
    assert(line_end(e.text, row) == o);
    assert(delete_char(e).cursor == d.cursor);
}

/// At the edges of the text the movements do nothing: up on the first line,
/// down on the last, left at the start of the text, right at its end.
pub proof fn lemma_clamped_movement(d: Doc)
    requires
        valid_doc(d),
    ensures
        d.cursor.row == 0 ==> move_cursor_up(d) == d,
        d.cursor.row == line_count(d.text) - 1 ==> move_cursor_down(d) == d,
        d.cursor.row == 0 && d.cursor.col == 0 ==> move_cursor_left(d) == d,
        d.cursor.row == line_count(d.text) - 1 && d.cursor.col == line_len(d.text, d.cursor.row)
            ==> move_cursor_right(d) == d,
        d.cursor.row == 0 ==> page_up(d) == d,
        d.cursor.row == line_count(d.text) - 1 ==> page_down(d) == d,
{
    if d.cursor.row == 0 {
        lemma_move_up_fixed(d, PAGE_ROWS as nat);
    }
    if d.cursor.row == line_count(d.text) - 1 {
        lemma_move_down_fixed(d, PAGE_ROWS as nat);
    }
}

proof fn lemma_move_up_fixed(d: Doc, n: nat)
    requires
        d.cursor.row == 0,
    ensures
        move_up_by(d, n) == d,
    decreases n,
{
    if n > 0 {
        lemma_move_up_fixed(d, (n - 1) as nat);
    }
}

proof fn lemma_move_down_fixed(d: Doc, n: nat)
    requires
        d.cursor.row == line_count(d.text) - 1,
    ensures
        move_down_by(d, n) == d,
    decreases n,
{
    if n > 0 {
        lemma_move_down_fixed(d, (n - 1) as nat);
    }
}

} // verus!

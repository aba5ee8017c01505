use tui_editor::buffer::{BufferError, TextBuffer};
use tui_editor::editor::Editor;
use tui_editor::model::Key;
use tui_editor::position::Position;

fn editor_at(row: usize, col: usize) -> Editor {
    let mut editor = Editor::new();
    editor.cursor = Position::new(row, col);
    editor
}

fn numbered_lines(n: usize) -> TextBuffer {
    let mut text = String::new();
    for i in 0..n {
        if i > 0 {
            text.push('\n');
        }
        text.push_str(&format!("line {}", i));
    }
    TextBuffer::from_str(&text)
}

#[test]
fn typing_into_empty_buffer() {
    let mut content = TextBuffer::new();
    let mut editor = Editor::new();
    editor.handle_input(Key::Char('a'), &mut content);
    editor.handle_input(Key::Char('b'), &mut content);
    assert_eq!(editor.cursor, Position::new(0, 2));
    assert_eq!(content.text(), "ab");
}

#[test]
fn line_break_at_end_of_text() {
    let mut content = TextBuffer::from_str("ab");
    let mut editor = editor_at(0, 2);
    editor.handle_input(Key::Enter, &mut content);
    assert_eq!(content.text(), "ab\n");
    assert_eq!(editor.cursor, Position::new(1, 0));
    assert_eq!(content.line_count(), 2);
}

#[test]
fn backspace_joins_lines() {
    let mut content = TextBuffer::from_str("ab\ncd");
    let mut editor = editor_at(1, 0);
    editor.handle_input(Key::Backspace, &mut content);
    assert_eq!(content.text(), "abcd");
    assert_eq!(editor.cursor, Position::new(0, 2));
}

#[test]
fn window_follows_cursor_down() {
    let content = numbered_lines(20);
    assert_eq!(content.line_count(), 20);
    let mut editor = editor_at(15, 0);
    editor.ensure_cursor_visible(&content, 80, 10);
    assert_eq!(editor.scroll_offset.row, 6);
    assert_eq!(editor.scroll_offset.col, 0);
}

#[test]
fn moves_in_empty_buffer_stay_put() {
    let mut content = TextBuffer::from_str("");
    let mut editor = Editor::new();
    for key in [Key::Right, Key::Down, Key::Up, Key::Left] {
        editor.handle_input(key, &mut content);
        assert_eq!(editor.cursor, Position::new(0, 0));
    }
    assert_eq!(content.text(), "");
    assert_eq!(content.line_count(), 1);
}

#[test]
fn buffer_insert_and_remove() {
    let mut content = TextBuffer::from_str("abc");
    assert_eq!(content.insert(4, 'x'), Err(BufferError::OutOfRange));
    assert_eq!(content.insert(3, 'd'), Ok(()));
    assert_eq!(content.insert(0, '_'), Ok(()));
    assert_eq!(content.text(), "_abcd");
    assert_eq!(content.length(), 5);
    assert_eq!(content.remove(3, 2), Err(BufferError::OutOfRange));
    assert_eq!(content.remove(2, 6), Err(BufferError::OutOfRange));
    assert_eq!(content.remove(1, 3), Ok(()));
    assert_eq!(content.text(), "_cd");
    assert_eq!(content.remove(3, 3), Ok(()));
    assert_eq!(content.text(), "_cd");
}

#[test]
fn buffer_lines() {
    let content = TextBuffer::from_str("one\n\nthree\n");
    assert_eq!(content.line_count(), 4);
    assert_eq!(content.line_to_char(0), Ok(0));
    assert_eq!(content.line_to_char(1), Ok(4));
    assert_eq!(content.line_to_char(2), Ok(5));
    assert_eq!(content.line_to_char(3), Ok(11));
    assert_eq!(content.line_to_char(4), Err(BufferError::OutOfRange));
    assert_eq!(content.line(0), Ok("one".to_string()));
    assert_eq!(content.line(1), Ok(String::new()));
    assert_eq!(content.line(2), Ok("three".to_string()));
    assert_eq!(content.line(3), Ok(String::new()));
    assert_eq!(content.line(4), Err(BufferError::OutOfRange));
    assert_eq!(content.line_len(0), Ok(3));
    assert_eq!(content.line_len(1), Ok(0));
    assert_eq!(content.line_len(2), Ok(5));
    assert_eq!(content.line_len(3), Ok(0));
    assert_eq!(content.line_len(4), Err(BufferError::OutOfRange));
}

#[test]
fn carriage_return_is_no_line_break() {
    let content = TextBuffer::from_str("a\rb\r\nc\u{2028}d");
    assert_eq!(content.line_count(), 2);
    assert_eq!(content.line(0), Ok("a\rb\r".to_string()));
    assert_eq!(content.line(1), Ok("c\u{2028}d".to_string()));
}

fn cursor_is_valid(editor: &Editor, content: &TextBuffer) -> bool {
    content.position_to_offset(editor.cursor).is_ok()
}

#[test]
fn cursor_stays_valid_under_any_keys() {
    let keys = [
        Key::Char('a'),
        Key::Enter,
        Key::Char('b'),
        Key::Up,
        Key::End,
        Key::Char('c'),
        Key::Char('d'),
        Key::Down,
        Key::Backspace,
        Key::Backspace,
        Key::Left,
        Key::Delete,
        Key::Enter,
        Key::Enter,
        Key::PageUp,
        Key::Right,
        Key::Right,
        Key::Right,
        Key::PageDown,
        Key::Home,
        Key::Delete,
        Key::Delete,
        Key::Char('\n'),
        Key::Ctrl('z'),
        Key::Tab,
        Key::F(5),
        Key::Other,
        Key::Up,
        Key::Backspace,
        Key::Backspace,
        Key::Backspace,
        Key::Backspace,
    ];
    let mut content = TextBuffer::from_str("xy\n\nlonger line\nz");
    let mut editor = editor_at(2, 6);
    for round in 0..3 {
        for (i, key) in keys.iter().enumerate() {
            editor.handle_input(*key, &mut content);
            assert!(cursor_is_valid(&editor, &content), "round {} key {}", round, i);
        }
    }
}

#[test]
fn line_break_then_backspace_restores() {
    let text = "ab\n\ncde\n";
    let probe = TextBuffer::from_str(text);
    for row in 0..probe.line_count() {
        for col in 0..=probe.line_len(row).unwrap() {
            let mut content = TextBuffer::from_str(text);
            let mut editor = editor_at(row, col);
            editor.handle_input(Key::Enter, &mut content);
            assert_eq!(editor.cursor, Position::new(row + 1, 0));
            assert_eq!(content.line_count(), probe.line_count() + 1);
            editor.handle_input(Key::Backspace, &mut content);
            assert_eq!(content.text(), text);
            assert_eq!(editor.cursor, Position::new(row, col));
        }
    }
}

#[test]
fn movement_is_clamped_at_the_edges() {
    let mut content = TextBuffer::from_str("abc\nde");
    let mut editor = editor_at(0, 2);
    editor.handle_input(Key::Up, &mut content);
    assert_eq!(editor.cursor, Position::new(0, 2));
    editor.handle_input(Key::PageUp, &mut content);
    assert_eq!(editor.cursor, Position::new(0, 2));

    let mut editor = editor_at(1, 1);
    editor.handle_input(Key::Down, &mut content);
    assert_eq!(editor.cursor, Position::new(1, 1));
    editor.handle_input(Key::PageDown, &mut content);
    assert_eq!(editor.cursor, Position::new(1, 1));

    let mut editor = editor_at(0, 0);
    editor.handle_input(Key::Left, &mut content);
    assert_eq!(editor.cursor, Position::new(0, 0));

    let mut editor = editor_at(1, 2);
    editor.handle_input(Key::Right, &mut content);
    assert_eq!(editor.cursor, Position::new(1, 2));
    assert_eq!(content.text(), "abc\nde");
}

#[test]
fn backspace_at_start_of_text_does_nothing() {
    let mut content = TextBuffer::from_str("ab");
    let mut editor = Editor::new();
    editor.handle_input(Key::Backspace, &mut content);
    assert_eq!(content.text(), "ab");
    assert_eq!(editor.cursor, Position::new(0, 0));
}

#[test]
fn backspace_inside_a_line() {
    let mut content = TextBuffer::from_str("ab\ncd");
    let mut editor = editor_at(1, 2);
    editor.handle_input(Key::Backspace, &mut content);
    assert_eq!(content.text(), "ab\nc");
    assert_eq!(editor.cursor, Position::new(1, 1));
}

#[test]
fn joining_lands_on_old_length_of_line_above() {
    let mut content = TextBuffer::from_str("hello\nworld\n!");
    let mut editor = editor_at(2, 0);
    editor.handle_input(Key::Backspace, &mut content);
    assert_eq!(content.text(), "hello\nworld!");
    assert_eq!(editor.cursor, Position::new(1, 5));
    editor.handle_input(Key::Home, &mut content);
    editor.handle_input(Key::Backspace, &mut content);
    assert_eq!(content.text(), "helloworld!");
    assert_eq!(editor.cursor, Position::new(0, 5));
}

#[test]
fn delete_forward() {
    let mut content = TextBuffer::from_str("ab\ncd");
    let mut editor = editor_at(0, 1);
    editor.handle_input(Key::Delete, &mut content);
    assert_eq!(content.text(), "a\ncd");
    assert_eq!(editor.cursor, Position::new(0, 1));
    editor.handle_input(Key::Delete, &mut content);
    assert_eq!(content.text(), "acd");
    assert_eq!(editor.cursor, Position::new(0, 1));
    let mut editor = editor_at(0, 3);
    editor.handle_input(Key::Delete, &mut content);
    assert_eq!(content.text(), "acd");
    assert_eq!(editor.cursor, Position::new(0, 3));
}

#[test]
fn typing_in_the_middle() {
    let mut content = TextBuffer::from_str("ad\nxyz");
    let mut editor = editor_at(0, 1);
    editor.handle_input(Key::Char('b'), &mut content);
    editor.handle_input(Key::Char('c'), &mut content);
    assert_eq!(content.text(), "abcd\nxyz");
    assert_eq!(editor.cursor, Position::new(0, 3));
    let mut editor = editor_at(1, 3);
    editor.handle_input(Key::Char('!'), &mut content);
    assert_eq!(content.text(), "abcd\nxyz!");
    assert_eq!(editor.cursor, Position::new(1, 4));
}

#[test]
fn line_break_in_the_middle() {
    let mut content = TextBuffer::from_str("abcd");
    let mut editor = editor_at(0, 2);
    editor.handle_input(Key::Enter, &mut content);
    assert_eq!(content.text(), "ab\ncd");
    assert_eq!(editor.cursor, Position::new(1, 0));
    assert_eq!(content.line_count(), 2);
}

#[test]
fn keys_that_are_no_edits_change_nothing() {
    let mut content = TextBuffer::from_str("ab\ncd");
    let mut editor = editor_at(1, 1);
    for key in [
        Key::Char('\n'),
        Key::Ctrl('a'),
        Key::Ctrl('c'),
        Key::Ctrl('v'),
        Key::Ctrl('x'),
        Key::Ctrl('z'),
        Key::Ctrl('y'),
        Key::Tab,
        Key::F(1),
        Key::Other,
    ] {
        editor.handle_input(key, &mut content);
        assert_eq!(content.text(), "ab\ncd");
        assert_eq!(editor.cursor, Position::new(1, 1));
    }
}

#[test]
fn vertical_moves_clamp_the_column() {
    let mut content = TextBuffer::from_str("long line\nab\n\nlonger line");
    let mut editor = editor_at(0, 7);
    editor.handle_input(Key::Down, &mut content);
    assert_eq!(editor.cursor, Position::new(1, 2));
    editor.handle_input(Key::Down, &mut content);
    assert_eq!(editor.cursor, Position::new(2, 0));
    editor.handle_input(Key::Down, &mut content);
    assert_eq!(editor.cursor, Position::new(3, 0));
    editor.handle_input(Key::End, &mut content);
    assert_eq!(editor.cursor, Position::new(3, 11));
    editor.handle_input(Key::Up, &mut content);
    assert_eq!(editor.cursor, Position::new(2, 0));
    let mut editor = editor_at(3, 5);
    editor.handle_input(Key::Up, &mut content);
    editor.handle_input(Key::Up, &mut content);
    assert_eq!(editor.cursor, Position::new(1, 0));
    let mut editor = editor_at(1, 1);
    editor.handle_input(Key::Up, &mut content);
    assert_eq!(editor.cursor, Position::new(0, 1));
}

#[test]
fn horizontal_moves_wrap_between_lines() {
    let mut content = TextBuffer::from_str("ab\ncd");
    let mut editor = editor_at(1, 0);
    editor.handle_input(Key::Left, &mut content);
    assert_eq!(editor.cursor, Position::new(0, 2));
    editor.handle_input(Key::Left, &mut content);
    assert_eq!(editor.cursor, Position::new(0, 1));
    editor.handle_input(Key::Right, &mut content);
    editor.handle_input(Key::Right, &mut content);
    assert_eq!(editor.cursor, Position::new(1, 0));
    editor.handle_input(Key::Right, &mut content);
    assert_eq!(editor.cursor, Position::new(1, 1));
}

#[test]
fn home_and_end() {
    let mut content = TextBuffer::from_str("ab\ncdef\n");
    let mut editor = editor_at(1, 2);
    editor.handle_input(Key::End, &mut content);
    assert_eq!(editor.cursor, Position::new(1, 4));
    editor.handle_input(Key::Home, &mut content);
    assert_eq!(editor.cursor, Position::new(1, 0));
    let mut editor = editor_at(2, 0);
    editor.handle_input(Key::End, &mut content);
    assert_eq!(editor.cursor, Position::new(2, 0));
}

#[test]
fn page_keys_move_ten_lines() {
    let mut content = numbered_lines(30);
    let mut editor = editor_at(12, 3);
    editor.handle_input(Key::PageUp, &mut content);
    assert_eq!(editor.cursor, Position::new(2, 3));
    editor.handle_input(Key::PageUp, &mut content);
    assert_eq!(editor.cursor, Position::new(0, 3));
    editor.handle_input(Key::PageDown, &mut content);
    assert_eq!(editor.cursor, Position::new(10, 3));
    editor.handle_input(Key::PageDown, &mut content);
    editor.handle_input(Key::PageDown, &mut content);
    assert_eq!(editor.cursor, Position::new(29, 3));
}

#[test]
fn page_keys_clamp_the_column_on_the_way() {
    let mut content = TextBuffer::from_str("0123456789\n0123456789\nab\n0123456789\n0123456789");
    let mut editor = editor_at(0, 8);
    editor.handle_input(Key::PageDown, &mut content);
    assert_eq!(editor.cursor, Position::new(4, 2));
    let mut editor = editor_at(4, 9);
    editor.handle_input(Key::PageUp, &mut content);
    assert_eq!(editor.cursor, Position::new(0, 2));
}

#[test]
fn char_index_is_line_start_plus_column() {
    let content = TextBuffer::from_str("ab\ncde\n");
    assert_eq!(editor_at(0, 0).get_char_index(&content), 0);
    assert_eq!(editor_at(0, 2).get_char_index(&content), 2);
    assert_eq!(editor_at(1, 1).get_char_index(&content), 4);
    assert_eq!(editor_at(2, 0).get_char_index(&content), 7);
}

#[test]
fn window_snaps_to_cursor_above_and_left() {
    let content = numbered_lines(50);
    let mut editor = editor_at(3, 2);
    editor.scroll_offset = Position::new(20, 5);
    editor.ensure_cursor_visible(&content, 10, 10);
    assert_eq!(editor.scroll_offset, Position::new(3, 2));
    assert_eq!(editor.cursor, Position::new(3, 2));
}

#[test]
fn window_advances_just_enough() {
    let content = TextBuffer::from_str(&"x".repeat(200));
    let mut editor = editor_at(0, 120);
    editor.ensure_cursor_visible(&content, 80, 24);
    assert_eq!(editor.scroll_offset, Position::new(0, 41));
    let mut editor = editor_at(0, 80);
    editor.ensure_cursor_visible(&content, 80, 24);
    assert_eq!(editor.scroll_offset, Position::new(0, 1));
    let mut editor = editor_at(0, 79);
    editor.ensure_cursor_visible(&content, 80, 24);
    assert_eq!(editor.scroll_offset, Position::new(0, 0));
}

#[test]
fn window_that_shows_the_cursor_stays() {
    let content = numbered_lines(50);
    let mut editor = editor_at(12, 0);
    editor.scroll_offset = Position::new(5, 0);
    editor.ensure_cursor_visible(&content, 80, 10);
    assert_eq!(editor.scroll_offset, Position::new(5, 0));
    let mut editor = editor_at(14, 0);
    editor.scroll_offset = Position::new(5, 0);
    editor.ensure_cursor_visible(&content, 80, 10);
    assert_eq!(editor.scroll_offset, Position::new(5, 0));
    editor.cursor = Position::new(15, 0);
    editor.ensure_cursor_visible(&content, 80, 10);
    assert_eq!(editor.scroll_offset, Position::new(6, 0));
}

#[test]
fn cursor_is_visible_after_reconciling() {
    let content = numbered_lines(40);
    for height in [1usize, 2, 7, 40, 100] {
        for width in [1usize, 3, 80] {
            let mut editor = Editor::new();
            for (row, col) in [(0, 0), (39, 6), (5, 3), (20, 0), (19, 7), (0, 6), (39, 0)] {
                editor.cursor = Position::new(row, col);
                editor.ensure_cursor_visible(&content, width, height);
                let scroll = editor.scroll_offset;
                assert!(scroll.row <= row && row < scroll.row + height);
                assert!(scroll.col <= col && col < scroll.col + width);
                assert_eq!(editor.cursor_in_window(width, height), Some(Position::new(row - scroll.row, col - scroll.col)));
            }
        }
    }
}

#[test]
fn short_text_keeps_the_window_at_the_origin() {
    let mut content = numbered_lines(5);
    let mut editor = Editor::new();
    for key in [Key::PageDown, Key::End, Key::Up, Key::Home, Key::PageUp, Key::Down] {
        editor.handle_input(key, &mut content);
        editor.ensure_cursor_visible(&content, 80, 24);
        assert_eq!(editor.scroll_offset, Position::new(0, 0));
    }
}

#[test]
fn visible_lines_are_cut_to_the_window_and_the_text() {
    let content = numbered_lines(20);
    let mut editor = Editor::new();
    editor.scroll_offset = Position::new(6, 0);
    let lines = editor.get_visible_lines(&content, 10);
    assert_eq!(lines.len(), 10);
    assert_eq!(lines[0], "line 6");
    assert_eq!(lines[9], "line 15");
    editor.scroll_offset = Position::new(15, 0);
    let lines = editor.get_visible_lines(&content, 10);
    assert_eq!(lines, vec!["line 15", "line 16", "line 17", "line 18", "line 19"]);
    editor.scroll_offset = Position::new(20, 0);
    assert!(editor.get_visible_lines(&content, 10).is_empty());
    editor.scroll_offset = Position::new(3, 0);
    assert!(editor.get_visible_lines(&content, 0).is_empty());
    assert_eq!(editor.get_visible_lines(&content, usize::MAX).len(), 17);
}

#[test]
fn visible_lines_carry_no_newline() {
    let content = TextBuffer::from_str("a\n\nb\n");
    let editor = Editor::new();
    assert_eq!(editor.get_visible_lines(&content, 10), vec!["a", "", "b", ""]);
}

#[test]
fn cursor_outside_the_window_is_not_drawn() {
    let mut editor = editor_at(12, 30);
    editor.scroll_offset = Position::new(10, 25);
    assert_eq!(editor.cursor_in_window(10, 5), Some(Position::new(2, 5)));
    assert_eq!(editor.cursor_in_window(5, 5), None);
    assert_eq!(editor.cursor_in_window(10, 2), None);
    assert_eq!(editor.cursor_in_window(6, 3), Some(Position::new(2, 5)));
    editor.scroll_offset = Position::new(13, 0);
    assert_eq!(editor.cursor_in_window(80, 24), None);
    editor.scroll_offset = Position::new(0, 31);
    assert_eq!(editor.cursor_in_window(80, 24), None);
}

#[test]
fn line_numbers_count_from_one() {
    let content = numbered_lines(20);
    let mut editor = Editor::new();
    assert_eq!(editor.line_number(&content, 0), Some(1));
    editor.scroll_offset = Position::new(6, 0);
    assert_eq!(editor.line_number(&content, 0), Some(7));
    assert_eq!(editor.line_number(&content, 13), Some(20));
    assert_eq!(editor.line_number(&content, 14), None);
    editor.scroll_offset = Position::new(20, 0);
    assert_eq!(editor.line_number(&content, 0), None);
}

#[test]
fn new_editor_starts_at_the_origin() {
    let editor = Editor::new();
    assert_eq!(editor.cursor, Position::new(0, 0));
    assert_eq!(editor.scroll_offset, Position::new(0, 0));
    let pos = Position::new(3, 4);
    assert_eq!(pos.row, 3);
    assert_eq!(pos.col, 4);
}

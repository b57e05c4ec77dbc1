use gic_core::buffer::clipboard::{ClipboardContentType, InternalClipboard};
use gic_core::buffer::commands::BufferCommand;
use gic_core::buffer::cursor::{Cursor, CursorPosition};
use gic_core::buffer::errors::BufferError;
use gic_core::buffer::history::{CommandGroup, UndoRedoHistory};
use gic_core::buffer::operations::BufferOperations;
use gic_core::buffer::selection::{Selection, SelectionMode};
use gic_core::buffer::text_buffer::TextBuffer;

#[test]
fn test_internal_clipboard_character_text() {
    let mut clipboard = InternalClipboard::new();
    assert!(clipboard.is_empty());

    clipboard.set_text("Copied String");
    assert!(!clipboard.is_empty());

    if let Some(ClipboardContentType::Character(s)) = clipboard.get_content() {
        assert_eq!(s, "Copied String");
    } else {
        panic!("Expected character content");
    }

    clipboard.clear();
    assert!(clipboard.is_empty());
}

#[test]
fn test_internal_clipboard_line_text() {
    let mut clipboard = InternalClipboard::new();
    clipboard.set_lines(vec!["Line 1".into(), "Line 2".into()]);

    if let Some(ClipboardContentType::Line(lines)) = clipboard.get_content() {
        assert_eq!(lines.len(), 2);
        assert_eq!(lines[0], "Line 1");
    } else {
        panic!("Expected line content");
    }

    assert_eq!(clipboard.get_content().unwrap().as_str_content(), "Line 1\nLine 2");
}

#[test]
fn test_buffer_command_inverse() {
    let pos = CursorPosition::new(1, 4);

    let ins_char = BufferCommand::InsertChar { pos, ch: 'A' };
    let inv_char = ins_char.inverse();
    assert_eq!(inv_char, BufferCommand::DeleteChar { pos, deleted_ch: 'A' });

    let split = BufferCommand::SplitLine { pos };
    let inv_split = split.inverse();
    assert_eq!(inv_split, BufferCommand::MergeLines { row: 1, col_offset: 4 });
}

#[test]
fn command_inverse_of_text_insert_and_delete() {
    let start = CursorPosition::new(0, 2);
    let ins = BufferCommand::InsertText { pos: start, text: "ab\ncd".to_string() };
    assert_eq!(
        ins.inverse(),
        BufferCommand::DeleteText { start, end: CursorPosition::new(1, 2), deleted_text: "ab\ncd".to_string() }
    );
    let del = BufferCommand::DeleteText {
        start,
        end: CursorPosition::new(0, 4),
        deleted_text: "xy".to_string(),
    };
    assert_eq!(del.inverse(), BufferCommand::InsertText { pos: start, text: "xy".to_string() });
    let merge = BufferCommand::MergeLines { row: 3, col_offset: 7 };
    assert_eq!(merge.inverse(), BufferCommand::SplitLine { pos: CursorPosition::new(3, 7) });
}

fn test_lines() -> Vec<String> {
    vec!["Hello World".into(), "Short".into(), "A long third line".into()]
}

#[test]
fn test_cursor_left_right_basic() {
    let lines = test_lines();
    let mut cursor = Cursor::new();

    cursor.move_right(&lines);
    assert_eq!(cursor.col(), 1);

    cursor.move_left(&lines);
    assert_eq!(cursor.col(), 0);

    cursor.move_left(&lines);
    assert_eq!(cursor.position, CursorPosition::zero());
}

#[test]
fn test_cursor_line_wrap() {
    let lines = test_lines();
    let mut cursor = Cursor::at(0, 11);

    cursor.move_right(&lines);
    assert_eq!(cursor.position, CursorPosition::new(1, 0));

    cursor.move_left(&lines);
    assert_eq!(cursor.position, CursorPosition::new(0, 11));
}

#[test]
fn test_cursor_up_down_preferred_col() {
    let lines = test_lines();
    let mut cursor = Cursor::at(0, 10);

    cursor.move_down(&lines);
    assert_eq!(cursor.position, CursorPosition::new(1, 5));

    cursor.move_down(&lines);
    assert_eq!(cursor.position, CursorPosition::new(2, 10));

    cursor.move_up(&lines);
    assert_eq!(cursor.position, CursorPosition::new(1, 5));
}

#[test]
fn test_cursor_word_movement() {
    let lines = vec!["hello world  foo".into()];
    let mut cursor = Cursor::new();

    cursor.move_word_forward(&lines);
    assert_eq!(cursor.col(), 6);

    cursor.move_word_forward(&lines);
    assert_eq!(cursor.col(), 13);

    cursor.move_word_backward(&lines);
    assert_eq!(cursor.col(), 6);

    cursor.move_word_backward(&lines);
    assert_eq!(cursor.col(), 0);
}

#[test]
fn test_cursor_clamping() {
    let lines = test_lines();
    let mut cursor = Cursor::at(10, 100);

    cursor.clamp(&lines);
    assert_eq!(cursor.row(), 2);
    assert_eq!(cursor.col(), 17);
}

#[test]
fn cursor_file_start_and_end() {
    let lines = test_lines();
    let mut cursor = Cursor::at(1, 3);
    cursor.move_to_file_end(&lines);
    assert_eq!(cursor.position, CursorPosition::new(2, 17));
    cursor.move_to_line_start();
    assert_eq!(cursor.position, CursorPosition::new(2, 0));
    cursor.move_to_line_end(&lines);
    assert_eq!(cursor.position, CursorPosition::new(2, 17));
    cursor.move_to_file_start();
    assert_eq!(cursor.position, CursorPosition::zero());
}

#[test]
fn test_buffer_error_formatting() {
    let invalid_pos = BufferError::InvalidPosition { row: 10, col: 5 };
    assert_eq!(invalid_pos.to_message(), "Invalid cursor position: row 10, col 5");

    let empty_buf = BufferError::EmptyBuffer;
    assert_eq!(empty_buf.to_message(), "Buffer is empty");

    let no_sel = BufferError::InvalidSelection;
    assert_eq!(no_sel.to_message(), "No active or valid selection");

    let empty_clip = BufferError::ClipboardEmpty;
    assert_eq!(empty_clip.to_message(), "Internal clipboard is empty");

    let empty_hist = BufferError::HistoryEmpty;
    assert_eq!(empty_hist.to_message(), "Undo/Redo history stack is empty");

    let op_fail = BufferError::OperationFailed("out of range".into());
    assert_eq!(op_fail.to_message(), "Buffer operation error: out of range");
}

#[test]
fn test_undo_redo_history_push_pop() {
    let mut history = UndoRedoHistory::new(5);
    assert!(!history.can_undo());
    assert!(!history.can_redo());

    let mut group = CommandGroup::new(CursorPosition::zero(), None);
    group.add_command(BufferCommand::InsertChar { pos: CursorPosition::zero(), ch: 'X' });
    group.finalize(CursorPosition::new(0, 1), None);

    history.push_group(group);
    assert!(history.can_undo());
    assert!(!history.can_redo());

    let popped_undo = history.pop_undo();
    assert!(popped_undo.is_some());
    assert!(!history.can_undo());
    assert!(history.can_redo());

    let popped_redo = history.pop_redo();
    assert!(popped_redo.is_some());
    assert!(history.can_undo());
    assert!(!history.can_redo());
}

#[test]
fn history_drops_oldest_group_beyond_limit() {
    let mut history = UndoRedoHistory::new(2);
    for i in 0..3usize {
        let mut group = CommandGroup::new(CursorPosition::new(0, i), None);
        group.add_command(BufferCommand::InsertChar { pos: CursorPosition::new(0, i), ch: 'a' });
        group.finalize(CursorPosition::new(0, i + 1), None);
        history.push_group(group);
    }
    assert_eq!(history.undo_count(), 2);
    let last = history.pop_undo().unwrap();
    assert_eq!(last.cursor_before, CursorPosition::new(0, 2));
    let first_kept = history.pop_undo().unwrap();
    assert_eq!(first_kept.cursor_before, CursorPosition::new(0, 1));
    assert!(history.pop_undo().is_none());
    assert_eq!(history.redo_count(), 2);
}

#[test]
fn test_unicode_and_emoji_handling() {
    let mut buffer = TextBuffer::new();
    buffer.insert_str("Rust 🦀 ⚡ 🚀").unwrap();
    assert_eq!(buffer.text(), "Rust 🦀 ⚡ 🚀");

    assert_eq!(buffer.line(0).unwrap().chars().count(), 10);

    buffer.move_left();
    buffer.move_left();
    buffer.move_left();
    assert_eq!(buffer.cursor().col(), 7);

    buffer.delete_char().unwrap();
    assert_eq!(buffer.text(), "Rust 🦀  🚀");
}

#[test]
fn test_large_buffer_performance() {
    let line_count = 10_000;
    let mut lines = Vec::with_capacity(line_count);
    for i in 0..line_count {
        lines.push(format!("server_config_row_{}_setting=true", i));
    }

    let mut buffer = TextBuffer::from_lines(lines);
    assert_eq!(buffer.line_count(), line_count);

    buffer.set_cursor_position(5000, 10);
    assert_eq!(buffer.cursor().row(), 5000);
    assert_eq!(buffer.cursor().col(), 10);

    buffer.insert_str("_edited").unwrap();
    assert!(buffer.line(5000).unwrap().contains("_edited"));

    buffer.undo().unwrap();
    assert!(!buffer.line(5000).unwrap().contains("_edited"));
}

#[test]
fn test_boundary_empty_and_blank_lines() {
    let mut buffer = TextBuffer::new();
    assert!(buffer.is_empty());

    buffer.move_left();
    buffer.move_right();
    buffer.move_up();
    buffer.move_down();
    assert_eq!(buffer.cursor().position, CursorPosition::zero());

    buffer.insert_newline().unwrap();
    assert_eq!(buffer.line_count(), 2);
    assert_eq!(buffer.text(), "\n");

    buffer.undo().unwrap();
    assert_eq!(buffer.line_count(), 1);
    assert_eq!(buffer.text(), "");
}

#[test]
fn test_insert_char_and_str() {
    let mut lines = vec!["Hello".into()];
    BufferOperations::insert_char(&mut lines, CursorPosition::new(0, 5), '!').unwrap();
    assert_eq!(lines[0], "Hello!");

    BufferOperations::insert_str(&mut lines, CursorPosition::new(0, 6), " World\nSecond").unwrap();
    assert_eq!(lines[0], "Hello! World");
    assert_eq!(lines[1], "Second");
}

#[test]
fn test_split_and_merge_lines() {
    let mut lines = vec!["Hello World".into()];

    BufferOperations::split_line(&mut lines, CursorPosition::new(0, 5)).unwrap();
    assert_eq!(lines.len(), 2);
    assert_eq!(lines[0], "Hello");
    assert_eq!(lines[1], " World");

    let offset = BufferOperations::merge_lines(&mut lines, 0).unwrap();
    assert_eq!(offset, 5);
    assert_eq!(lines.len(), 1);
    assert_eq!(lines[0], "Hello World");
}

#[test]
fn test_delete_range() {
    let mut lines = vec!["Line 1".into(), "Line 2".into(), "Line 3".into()];
    let deleted =
        BufferOperations::delete_range(&mut lines, CursorPosition::new(0, 4), CursorPosition::new(2, 4)).unwrap();

    assert_eq!(deleted, " 1\nLine 2\nLine");
    assert_eq!(lines.len(), 1);
    assert_eq!(lines[0], "Line 3");
}

#[test]
fn operations_reject_out_of_range_positions() {
    let mut lines: Vec<String> = vec!["abc".into()];
    assert_eq!(
        BufferOperations::insert_char(&mut lines, CursorPosition::new(0, 4), 'x'),
        Err(BufferError::InvalidPosition { row: 0, col: 4 })
    );
    assert_eq!(
        BufferOperations::split_line(&mut lines, CursorPosition::new(2, 0)),
        Err(BufferError::InvalidPosition { row: 2, col: 0 })
    );
    assert!(BufferOperations::merge_lines(&mut lines, 0).is_err());
    assert_eq!(lines, vec!["abc".to_string()]);
}

#[test]
fn test_selection_start_update_clear() {
    let mut selection = Selection::new();
    assert!(!selection.is_active);

    selection.start(CursorPosition::new(0, 5), SelectionMode::Character);
    assert!(selection.is_active);
    assert_eq!(selection.anchor, CursorPosition::new(0, 5));

    selection.update(CursorPosition::new(2, 10));
    assert_eq!(selection.head, CursorPosition::new(2, 10));

    let (start, end) = selection.range();
    assert_eq!(start, CursorPosition::new(0, 5));
    assert_eq!(end, CursorPosition::new(2, 10));

    selection.clear();
    assert!(!selection.is_active);
}

#[test]
fn test_selection_text_extraction() {
    let lines = vec!["First Line".into(), "Second Line".into(), "Third Line".into()];

    let mut selection = Selection::new();
    selection.start(CursorPosition::new(0, 6), SelectionMode::Character);
    selection.update(CursorPosition::new(1, 6));

    let extracted = selection.get_selected_text(&lines).unwrap();
    assert_eq!(extracted, "Line\nSecond");
}

#[test]
fn selection_range_orders_backward_selection() {
    let mut selection = Selection::new();
    selection.start(CursorPosition::new(3, 2), SelectionMode::Character);
    selection.update(CursorPosition::new(1, 8));
    assert_eq!(selection.range(), (CursorPosition::new(1, 8), CursorPosition::new(3, 2)));
    assert!(selection.contains(CursorPosition::new(2, 0)));
    assert!(selection.contains(CursorPosition::new(3, 2)));
    assert!(!selection.contains(CursorPosition::new(3, 3)));
    selection.clear();
    assert!(!selection.contains(CursorPosition::new(2, 0)));
}

#[test]
fn test_text_buffer_insert_delete_workflow() {
    let mut buffer = TextBuffer::new();
    buffer.insert_str("Hello World").unwrap();
    assert_eq!(buffer.text(), "Hello World");
    assert_eq!(buffer.cursor().col(), 11);

    buffer.delete_backspace().unwrap();
    assert_eq!(buffer.text(), "Hello Worl");

    buffer.insert_newline().unwrap();
    assert_eq!(buffer.line_count(), 2);
    assert_eq!(buffer.line(0), Some("Hello Worl"));
    assert_eq!(buffer.line(1), Some(""));
}

#[test]
fn test_text_buffer_undo_redo() {
    let mut buffer = TextBuffer::new();
    buffer.insert_str("Initial").unwrap();
    assert_eq!(buffer.text(), "Initial");

    buffer.insert_str(" Second").unwrap();
    assert_eq!(buffer.text(), "Initial Second");

    buffer.undo().unwrap();
    assert_eq!(buffer.text(), "Initial");

    buffer.redo().unwrap();
    assert_eq!(buffer.text(), "Initial Second");
}

#[test]
fn test_text_buffer_selection_and_copy_paste() {
    let mut buffer = TextBuffer::from_str("Copy Target Text");
    buffer.set_cursor_position(0, 5);
    buffer.start_selection(SelectionMode::Character);
    buffer.set_cursor_position(0, 11);

    buffer.copy().unwrap();
    buffer.clear_selection();

    buffer.move_to_file_end();
    buffer.paste().unwrap();
    assert_eq!(buffer.text(), "Copy Target TextTarget");
}

#[test]
fn undo_of_insert_char_restores_lines_and_cursor() {
    let mut buffer = TextBuffer::from_str("ab\ncd");
    buffer.set_cursor_position(1, 1);
    buffer.insert_char('X').unwrap();
    assert_eq!(buffer.text(), "ab\ncXd");
    buffer.undo().unwrap();
    assert_eq!(buffer.text(), "ab\ncd");
    assert_eq!(buffer.cursor_position(), CursorPosition::new(1, 1));
    buffer.redo().unwrap();
    assert_eq!(buffer.text(), "ab\ncXd");
}

#[test]
fn undo_and_redo_on_empty_history_fail() {
    let mut buffer = TextBuffer::from_str("x");
    assert_eq!(buffer.undo(), Err(BufferError::HistoryEmpty));
    assert_eq!(buffer.redo(), Err(BufferError::HistoryEmpty));
    assert_eq!(buffer.paste(), Err(BufferError::ClipboardEmpty));
    assert_eq!(buffer.copy(), Ok(()));
    buffer.paste().unwrap();
    assert_eq!(buffer.text(), "xx");
}

#[test]
fn cut_then_paste_round_trip() {
    let mut buffer = TextBuffer::from_str("one two");
    buffer.set_cursor_position(0, 3);
    buffer.start_selection(SelectionMode::Character);
    buffer.set_cursor_position(0, 7);
    buffer.cut().unwrap();
    assert_eq!(buffer.text(), "one");
    buffer.move_to_line_start();
    buffer.paste().unwrap();
    assert_eq!(buffer.text(), " twoone");
}

#[test]
fn undo_of_delete_char_and_line_join() {
    let mut buffer = TextBuffer::from_str("abc\ndef");
    buffer.set_cursor_position(0, 1);
    buffer.delete_char().unwrap();
    assert_eq!(buffer.text(), "ac\ndef");
    buffer.undo().unwrap();
    assert_eq!(buffer.text(), "abc\ndef");
    assert_eq!(buffer.cursor_position(), CursorPosition::new(0, 1));
    buffer.redo().unwrap();
    assert_eq!(buffer.text(), "ac\ndef");

    let mut joined = TextBuffer::from_str("abc\ndef");
    joined.set_cursor_position(0, 3);
    joined.delete_char().unwrap();
    assert_eq!(joined.text(), "abcdef");
    joined.undo().unwrap();
    assert_eq!(joined.text(), "abc\ndef");
    assert_eq!(joined.cursor_position(), CursorPosition::new(0, 3));
}

#[test]
fn command_inverse_twice_gives_back_the_command() {
    let cmds = vec![
        BufferCommand::InsertChar { pos: CursorPosition::new(2, 3), ch: 'z' },
        BufferCommand::SplitLine { pos: CursorPosition::new(0, 1) },
        BufferCommand::MergeLines { row: 4, col_offset: 2 },
        BufferCommand::InsertText { pos: CursorPosition::new(1, 1), text: "x\ny".to_string() },
    ];
    for c in cmds {
        assert_eq!(c.inverse().inverse(), c);
    }
}

#[test]
fn inverse_of_text_ending_in_newline_ends_on_next_line() {
    let cmd = BufferCommand::InsertText { pos: CursorPosition::new(0, 0), text: "a\n".to_string() };
    assert_eq!(
        cmd.inverse(),
        BufferCommand::DeleteText {
            start: CursorPosition::new(0, 0),
            end: CursorPosition::new(1, 0),
            deleted_text: "a\n".to_string(),
        }
    );
}

#[test]
fn undo_restores_text_ending_in_newline() {
    let mut buffer = TextBuffer::from_str("xy");
    buffer.set_cursor_position(0, 1);
    buffer.insert_str("a\nb\n").unwrap();
    assert_eq!(buffer.text(), "xa\nb\ny");
    buffer.undo().unwrap();
    assert_eq!(buffer.text(), "xy");
    assert_eq!(buffer.cursor_position(), CursorPosition::new(0, 1));
    buffer.redo().unwrap();
    assert_eq!(buffer.text(), "xa\nb\ny");
}

#[test]
fn inactive_selection_range_is_ordered() {
    let s = Selection {
        anchor: CursorPosition::new(2, 1),
        head: CursorPosition::new(0, 4),
        mode: SelectionMode::Block,
        is_active: false,
    };
    assert_eq!(s.range(), (CursorPosition::new(0, 4), CursorPosition::new(2, 1)));
}

#[test]
fn delete_line_removes_the_last_line() {
    let mut buffer = TextBuffer::from_str("a\nb");
    buffer.set_cursor_position(1, 0);
    assert_eq!(buffer.delete_line(), Ok(()));
    assert_eq!(buffer.line_count(), 1);
    assert_eq!(buffer.text(), "a");
    buffer.undo().unwrap();
    assert_eq!(buffer.text(), "a\nb");
    let mut single = TextBuffer::from_str("only");
    single.delete_line().unwrap();
    assert_eq!(single.line_count(), 1);
    assert_eq!(single.text(), "");
}

#[test]
fn paste_below_splits_clipboard_into_lines() {
    let mut buffer = TextBuffer::from_str("a\nb");
    buffer.start_selection(SelectionMode::Character);
    buffer.set_cursor_position(1, 1);
    buffer.copy().unwrap();
    buffer.clear_selection();
    assert_eq!(buffer.paste_below(), Ok(()));
    assert_eq!(buffer.line_count(), 4);
    assert_eq!(buffer.text(), "a\nb\na\nb");
    assert!(buffer.lines().iter().all(|l| !l.contains('\n')));
    assert_eq!(buffer.cursor_position(), CursorPosition::new(2, 0));
    buffer.set_cursor_position(0, 0);
    buffer.paste_above().unwrap();
    assert_eq!(buffer.line_count(), 6);
    assert_eq!(buffer.text(), "a\nb\na\nb\na\nb");
}

#[test]
fn insert_str_splices_into_the_joined_text() {
    let mut lines = vec!["abc".to_string(), "def".to_string()];
    let end = BufferOperations::insert_str(&mut lines, CursorPosition::new(1, 1), "X\nYZ").unwrap();
    assert_eq!(lines.join("\n"), "abc\ndX\nYZef");
    assert_eq!(end, CursorPosition::new(2, 2));
}

#[test]
fn text_round_trips_through_a_buffer() {
    let b = TextBuffer::from_str("one\ntwo\n\nthree");
    assert_eq!(b.text(), "one\ntwo\n\nthree");
    assert_eq!(b.line_count(), 4);
}

#[test]
fn undo_restores_after_backspace_cut_paste_and_selection_delete() {
    let mut b = TextBuffer::from_str("ab\ncd");
    b.set_cursor_position(1, 1);
    b.delete_backspace().unwrap();
    assert_eq!(b.text(), "ab\nd");
    b.undo().unwrap();
    assert_eq!(b.text(), "ab\ncd");
    assert_eq!(b.cursor_position(), CursorPosition::new(1, 1));

    b.set_cursor_position(1, 0);
    b.delete_backspace().unwrap();
    assert_eq!(b.text(), "abcd");
    b.undo().unwrap();
    assert_eq!(b.text(), "ab\ncd");
    assert_eq!(b.cursor_position(), CursorPosition::new(1, 0));

    b.set_cursor_position(0, 1);
    b.start_selection(SelectionMode::Character);
    b.set_cursor_position(1, 1);
    b.delete_selection().unwrap();
    assert_eq!(b.text(), "ad");
    b.undo().unwrap();
    assert_eq!(b.text(), "ab\ncd");

    b.clear_selection();
    b.set_cursor_position(0, 0);
    b.cut().unwrap();
    assert_eq!(b.text(), "cd");
    b.undo().unwrap();
    assert_eq!(b.text(), "ab\ncd");

    b.set_cursor_position(1, 2);
    b.paste().unwrap();
    assert_eq!(b.text(), "ab\ncdab");
    b.undo().unwrap();
    assert_eq!(b.text(), "ab\ncd");
    assert_eq!(b.cursor_position(), CursorPosition::new(1, 2));
}

#[test]
fn history_never_holds_more_than_its_capacity() {
    let mut h = UndoRedoHistory::new(2);
    for i in 0..5 {
        let mut g = CommandGroup::new(CursorPosition::new(0, i), None);
        g.add_command(BufferCommand::InsertChar { pos: CursorPosition::new(0, i), ch: 'x' });
        h.push_group(g);
        assert!(h.undo_count() <= 2);
    }
    assert_eq!(h.undo_count(), 2);
}

#[test]
fn undo_restores_after_replace_range_and_delete_word() {
    let mut b = TextBuffer::from_str("hello world\nbye");
    b.replace_range(CursorPosition::new(1, 0), CursorPosition::new(0, 6), "X\nY").unwrap();
    assert_eq!(b.text(), "hello X\nYbye");
    b.undo().unwrap();
    assert_eq!(b.text(), "hello world\nbye");

    b.set_cursor_position(0, 0);
    b.delete_word().unwrap();
    assert_eq!(b.text(), "world\nbye");
    b.undo().unwrap();
    assert_eq!(b.text(), "hello world\nbye");
    assert_eq!(b.cursor_position(), CursorPosition::new(0, 0));
}

use edit_core::buffer::TextBuffer;
use edit_core::cursor::{move_cursor, Cursor, Direction};
use edit_core::dispatch::{ApplyOutcome, Command, Editor, EditorMode, InputEvent, Invalidation};
use edit_core::persist::load_text;
use edit_core::viewport::Viewport;

fn chars(s: &str) -> Vec<char> {
    s.chars().collect()
}

fn buffer_from(text: &str) -> TextBuffer {
    load_text(&chars(text), None)
}

fn line_string(buf: &TextBuffer, row: usize) -> String {
    buf.line_at(row).to_chars().into_iter().collect()
}

#[test]
fn insert_three_then_delete_twice() {
    // Empty buffer; insert "a", "b", "c"; two backward deletions.
    let mut ed = Editor::new(TextBuffer::empty(), 10);
    for c in ['a', 'b', 'c'] {
        ed.apply_command(Command::InsertChar(c));
    }
    assert_eq!(line_string(&ed.buffer, 0), "abc");
    assert_eq!(ed.cursor, Cursor { row: 0, col: 3 });
    ed.apply_command(Command::DeleteBackward);
    ed.apply_command(Command::DeleteBackward);
    assert_eq!(ed.buffer.line_count(), 1);
    assert_eq!(line_string(&ed.buffer, 0), "a");
    assert_eq!(ed.cursor, Cursor { row: 0, col: 1 });
}

#[test]
fn right_at_line_end_wraps_to_next_line_start() {
    let mut ed = Editor::new(buffer_from("ab\ncd"), 10);
    ed.cursor = Cursor { row: 0, col: 2 };
    ed.apply_command(Command::MoveCursor(Direction::Right));
    assert_eq!(ed.cursor, Cursor { row: 1, col: 0 });
}

#[test]
fn left_at_line_start_wraps_to_previous_line_end() {
    let mut ed = Editor::new(buffer_from("ab\ncd"), 10);
    ed.cursor = Cursor { row: 1, col: 0 };
    ed.apply_command(Command::MoveCursor(Direction::Left));
    assert_eq!(ed.cursor, Cursor { row: 0, col: 2 });
}

#[test]
fn left_at_document_start_is_a_no_op() {
    let mut ed = Editor::new(buffer_from("ab"), 10);
    let out = ed.apply_command(Command::MoveCursor(Direction::Left));
    assert_eq!(ed.cursor, Cursor { row: 0, col: 0 });
    assert!(!out.scrolled);
}

#[test]
fn right_at_document_end_is_a_no_op() {
    let mut ed = Editor::new(buffer_from("ab"), 10);
    ed.cursor = Cursor { row: 0, col: 2 };
    ed.apply_command(Command::MoveCursor(Direction::Right));
    assert_eq!(ed.cursor, Cursor { row: 0, col: 2 });
}

#[test]
fn vertical_moves_clamp_the_column() {
    let mut ed = Editor::new(buffer_from("long line\nab\nlonger line"), 10);
    ed.cursor = Cursor { row: 0, col: 9 };
    ed.apply_command(Command::MoveCursor(Direction::Down));
    assert_eq!(ed.cursor, Cursor { row: 1, col: 2 });
    ed.apply_command(Command::MoveCursor(Direction::Down));
    assert_eq!(ed.cursor, Cursor { row: 2, col: 2 });
}

#[test]
fn down_keeps_cursor_on_last_visible_row_while_scrolling() {
    // Window of height 3 over ten lines; five Down presses from the top.
    let text = (0..10).map(|i| i.to_string()).collect::<Vec<_>>().join("\n");
    let mut ed = Editor::new(buffer_from(&text), 3);
    let mut begins = Vec::new();
    for _ in 0..5 {
        let out = ed.apply_command(Command::MoveCursor(Direction::Down));
        begins.push((ed.cursor.row, ed.viewport.begin_row, out.scrolled));
    }
    // Rows 0..2 are visible at first; from row 3 on, each step scrolls
    // by one and the cursor is the last visible row.
    assert_eq!(
        begins,
        vec![(1, 0, false), (2, 0, false), (3, 1, true), (4, 2, true), (5, 3, true)]
    );
    assert_eq!(ed.viewport.begin_row + ed.viewport.height - 1, ed.cursor.row);
}

#[test]
fn moving_back_up_scrolls_the_window_up() {
    let text = (0..10).map(|i| i.to_string()).collect::<Vec<_>>().join("\n");
    let mut ed = Editor::new(buffer_from(&text), 3);
    for _ in 0..5 {
        ed.apply_command(Command::MoveCursor(Direction::Down));
    }
    assert_eq!(ed.viewport.begin_row, 3);
    for _ in 0..3 {
        ed.apply_command(Command::MoveCursor(Direction::Up));
    }
    // Cursor at row 2, which was above the window: the window followed.
    assert_eq!(ed.cursor.row, 2);
    assert_eq!(ed.viewport.begin_row, 2);
}

#[test]
fn newline_splits_and_backspace_at_line_start_joins_back() {
    let mut ed = Editor::new(buffer_from("hello world"), 10);
    ed.cursor = Cursor { row: 0, col: 5 };
    let out = ed.apply_command(Command::InsertNewline);
    assert_eq!(ed.buffer.line_count(), 2);
    assert_eq!(line_string(&ed.buffer, 0), "hello");
    assert_eq!(line_string(&ed.buffer, 1), " world");
    assert_eq!(ed.cursor, Cursor { row: 1, col: 0 });
    assert_eq!(out.invalidation, Invalidation::FromRow(0));

    let out = ed.apply_command(Command::DeleteBackward);
    assert_eq!(ed.buffer.line_count(), 1);
    assert_eq!(line_string(&ed.buffer, 0), "hello world");
    assert_eq!(ed.cursor, Cursor { row: 0, col: 5 });
    assert_eq!(out.invalidation, Invalidation::FromRow(0));
}

#[test]
fn delete_forward_removes_under_cursor_and_joins_at_line_end() {
    let mut ed = Editor::new(buffer_from("ab\ncd"), 10);
    ed.apply_command(Command::DeleteForward);
    assert_eq!(line_string(&ed.buffer, 0), "b");
    assert_eq!(ed.cursor, Cursor { row: 0, col: 0 });
    ed.cursor = Cursor { row: 0, col: 1 };
    ed.apply_command(Command::DeleteForward);
    assert_eq!(ed.buffer.line_count(), 1);
    assert_eq!(line_string(&ed.buffer, 0), "bcd");
}

#[test]
fn delete_backward_at_document_start_changes_nothing() {
    let mut ed = Editor::new(buffer_from("ab"), 10);
    let out = ed.apply_command(Command::DeleteBackward);
    assert_eq!(line_string(&ed.buffer, 0), "ab");
    assert_eq!(ed.cursor, Cursor { row: 0, col: 0 });
    assert_eq!(out.invalidation, Invalidation::Nothing);
    assert!(!ed.buffer.dirty());
}

#[test]
fn pointer_press_is_clamped_into_the_document() {
    let mut ed = Editor::new(buffer_from("ab\ncd\nef"), 10);
    ed.apply_command(Command::PointerMove { x: 1, y: 1 });
    assert_eq!(ed.cursor, Cursor { row: 1, col: 1 });
    // Far outside: clamped to the last line and its length.
    ed.apply_command(Command::PointerMove { x: 99, y: 99 });
    assert_eq!(ed.cursor, Cursor { row: 2, col: 2 });
}

#[test]
fn events_resolve_to_commands_and_unknown_events_are_ignored() {
    let mut ed = Editor::new(buffer_from("ab"), 10);
    let out = ed.dispatch(InputEvent::Char('x'));
    assert_eq!(line_string(&ed.buffer, 0), "xab");
    assert_eq!(out.invalidation, Invalidation::Row(0));
    let before = ed.cursor;
    let out = ed.dispatch(InputEvent::Other);
    assert_eq!(ed.cursor, before);
    assert_eq!(out, ApplyOutcome {
        scrolled: false,
        invalidation: Invalidation::Nothing,
        save_requested: false,
        quit: false,
    });
}

#[test]
fn enter_and_newline_characters_both_insert_a_newline() {
    let mut ed = Editor::new(buffer_from("ab"), 10);
    ed.dispatch(InputEvent::Enter);
    assert_eq!(ed.buffer.line_count(), 2);
    let mut ed = Editor::new(buffer_from("ab"), 10);
    ed.dispatch(InputEvent::Char('\n'));
    assert_eq!(ed.buffer.line_count(), 2);
}

#[test]
fn quit_enters_the_exiting_mode_and_later_events_do_nothing() {
    let mut ed = Editor::new(buffer_from("ab"), 10);
    let out = ed.dispatch(InputEvent::QuitKey);
    assert!(out.quit);
    assert_eq!(ed.mode, EditorMode::Exiting);
    let out = ed.dispatch(InputEvent::Char('x'));
    assert!(!out.quit);
    assert_eq!(line_string(&ed.buffer, 0), "ab");
}

#[test]
fn save_key_only_requests_a_save() {
    let mut ed = Editor::new(buffer_from("ab"), 10);
    ed.dispatch(InputEvent::Char('x'));
    assert!(ed.buffer.dirty());
    let out = ed.dispatch(InputEvent::SaveKey);
    assert!(out.save_requested);
    // The dispatcher itself does not touch the dirty flag.
    assert!(ed.buffer.dirty());
}

#[test]
fn cursor_stays_in_bounds_under_a_long_mixed_edit_sequence() {
    let mut ed = Editor::new(buffer_from("ab\ncd"), 4);
    let cmds = [
        Command::InsertChar('x'),
        Command::DeleteBackward,
        Command::DeleteBackward,
        Command::InsertNewline,
        Command::MoveCursor(Direction::Down),
        Command::InsertChar('y'),
        Command::DeleteBackward,
        Command::DeleteBackward,
        Command::DeleteBackward,
        Command::MoveCursor(Direction::Up),
        Command::DeleteBackward,
        Command::InsertChar('z'),
    ];
    for cmd in cmds {
        ed.apply_command(cmd);
        let count = ed.buffer.line_count();
        assert!(ed.cursor.row < count);
        assert!(ed.cursor.col <= ed.buffer.line_len(ed.cursor.row));
        assert!(ed.viewport.begin_row <= ed.cursor.row);
        assert!(ed.cursor.row < ed.viewport.begin_row + ed.viewport.height);
    }
}

#[test]
fn direct_cursor_moves_match_the_documented_wrapping() {
    let buf = buffer_from("ab\ncd");
    let mut c = Cursor { row: 0, col: 2 };
    move_cursor(&mut c, &buf, Direction::Right);
    assert_eq!(c, Cursor { row: 1, col: 0 });
    move_cursor(&mut c, &buf, Direction::Left);
    assert_eq!(c, Cursor { row: 0, col: 2 });
}

#[test]
fn ensure_visible_scrolls_exactly_as_specified() {
    let mut v = Viewport { begin_row: 5, height: 4 };
    // Above the window: begin follows the cursor row exactly.
    assert!(v.ensure_visible(2));
    assert_eq!(v.begin_row, 2);
    // Inside the window: nothing moves.
    assert!(!v.ensure_visible(5));
    assert_eq!(v.begin_row, 2);
    // Below the window: the cursor row becomes the last visible row.
    assert!(v.ensure_visible(9));
    assert_eq!(v.begin_row, 6);
    assert_eq!(v.height, 4);
}

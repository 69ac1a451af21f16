use edit_core::buffer::{LineEnding, TextBuffer};
use edit_core::dispatch::{Command, Editor};
use edit_core::persist::{detect_ending, load_text, prepare_save, serialize, SaveError};

fn chars(s: &str) -> Vec<char> {
    s.chars().collect()
}

fn to_string(v: Vec<char>) -> String {
    v.into_iter().collect()
}

fn round_trips(text: &str) {
    let buf = load_text(&chars(text), None);
    assert_eq!(to_string(serialize(&buf)), text);
}

#[test]
fn load_then_save_reproduces_the_text_exactly() {
    round_trips("");
    round_trips("a");
    round_trips("a\nb");
    round_trips("a\nb\n");
    round_trips("\n");
    round_trips("a\r\nb");
    round_trips("a\r\nb\r\n");
    round_trips("\r\n");
    round_trips("lone\rcarriage");
    round_trips("mixed\r\nthen\nbare");
    round_trips("mixed\nthen\r\npaired");
}

#[test]
fn line_ending_detection() {
    assert_eq!(detect_ending(&chars("a\nb")), LineEnding::Lf);
    assert_eq!(detect_ending(&chars("a\r\nb")), LineEnding::CrLf);
    assert_eq!(detect_ending(&chars("")), LineEnding::Lf);
    assert_eq!(detect_ending(&chars("no breaks")), LineEnding::Lf);
    assert_eq!(detect_ending(&chars("lone\rreturn")), LineEnding::Lf);
    assert_eq!(detect_ending(&chars("a\nb\r\nc")), LineEnding::CrLf);
}

#[test]
fn loading_splits_on_the_detected_convention() {
    let buf = load_text(&chars("one\r\ntwo\r\nthree"), None);
    assert_eq!(buf.ending(), LineEnding::CrLf);
    assert_eq!(buf.line_count(), 3);
    assert_eq!(to_string(buf.line_at(1).to_chars()), "two");

    let buf = load_text(&chars("one\ntwo"), None);
    assert_eq!(buf.ending(), LineEnding::Lf);
    assert_eq!(buf.line_count(), 2);
}

#[test]
fn empty_text_loads_as_one_empty_line() {
    let buf = load_text(&chars(""), None);
    assert_eq!(buf.line_count(), 1);
    assert_eq!(buf.line_len(0), 0);
    assert!(!buf.dirty());
}

#[test]
fn trailing_newline_gives_a_trailing_empty_line() {
    let buf = load_text(&chars("a\n"), None);
    assert_eq!(buf.line_count(), 2);
    assert_eq!(buf.line_len(1), 0);
}

#[test]
fn the_recorded_convention_is_reused_after_edits() {
    let buf = load_text(&chars("ab\r\ncd"), None);
    let mut ed = Editor::new(buf, 10);
    ed.apply_command(Command::InsertChar('x'));
    assert_eq!(to_string(serialize(&ed.buffer)), "xab\r\ncd");
}

#[test]
fn save_with_no_path_reports_an_error_and_keeps_the_buffer_dirty() {
    let mut ed = Editor::new(TextBuffer::empty(), 10);
    ed.apply_command(Command::InsertChar('a'));
    assert!(ed.buffer.dirty());
    let r = prepare_save(&ed.buffer);
    assert_eq!(r.err(), Some(SaveError::NoPath));
    assert!(ed.buffer.dirty());
}

#[test]
fn save_with_a_path_hands_back_the_path_and_the_serialized_text() {
    let buf = load_text(&chars("ab\ncd"), Some(chars("notes.txt")));
    let mut ed = Editor::new(buf, 10);
    ed.apply_command(Command::InsertChar('x'));
    let plan = prepare_save(&ed.buffer).unwrap();
    assert_eq!(to_string(plan.path), "notes.txt");
    assert_eq!(to_string(plan.content), "xab\ncd");
}

#[test]
fn dirty_clears_only_on_a_successful_save() {
    let buf = load_text(&chars("ab"), Some(chars("f.txt")));
    let mut ed = Editor::new(buf, 10);
    ed.apply_command(Command::InsertChar('x'));
    assert!(ed.buffer.dirty());
    ed.buffer.note_save_result(false);
    assert!(ed.buffer.dirty());
    ed.buffer.note_save_result(true);
    assert!(!ed.buffer.dirty());
}

#[test]
fn split_then_join_restores_the_original_line() {
    let mut buf = load_text(&chars("hello world\nnext"), None);
    buf.split_line(0, 5);
    assert_eq!(buf.line_count(), 3);
    buf.join_line(0);
    assert_eq!(buf.line_count(), 2);
    assert_eq!(to_string(buf.line_at(0).to_chars()), "hello world");
    assert_eq!(to_string(buf.line_at(1).to_chars()), "next");
}

#[test]
fn loading_records_the_given_path() {
    let buf = load_text(&chars("ab"), Some(chars("a.rs")));
    assert!(buf.has_path());
    assert_eq!(to_string(buf.path_chars().unwrap()), "a.rs");
    let buf = load_text(&chars("ab"), None);
    assert!(!buf.has_path());
}

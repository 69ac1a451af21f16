use edit_core::buffer::TextBuffer;
use edit_core::cursor::Direction;
use edit_core::dispatch::InputEvent;
use edit_core::highlight::{HighlightCache, HighlightContext, StyledSpan};
use edit_core::persist::{load_text, prepare_save, SaveError};
use edit_core::session::EditorSession;

fn chars(s: &str) -> Vec<char> {
    s.chars().collect()
}

fn concat_text(spans: &[StyledSpan]) -> String {
    spans.iter().flat_map(|s| s.text.iter().copied()).collect()
}

#[test]
fn spans_are_cached_per_line_and_generation() {
    let buf = load_text(&chars("ab\ncd"), None);
    let mut cache = HighlightCache::new();
    let spans = cache.spans_for(&buf, 0, None);
    assert_eq!(concat_text(&spans), "ab");
    assert_eq!(cache.recomputes_so_far(), 1);
    // A second request for the same unchanged line is a cache hit.
    let spans = cache.spans_for(&buf, 0, None);
    assert_eq!(concat_text(&spans), "ab");
    assert_eq!(cache.recomputes_so_far(), 1);
}

#[test]
fn editing_one_line_never_recomputes_another() {
    let mut buf = load_text(&chars("ab\ncd"), None);
    let mut cache = HighlightCache::new();
    cache.spans_for(&buf, 0, None);
    assert_eq!(cache.recomputes_so_far(), 1);
    // Edit line 1; line 0's generation is untouched.
    buf.insert_char(1, 0, 'x');
    let spans = cache.spans_for(&buf, 0, None);
    assert_eq!(concat_text(&spans), "ab");
    assert_eq!(cache.recomputes_so_far(), 1);
    // The edited line itself is stale and is recomputed.
    let spans = cache.spans_for(&buf, 1, None);
    assert_eq!(concat_text(&spans), "xcd");
    assert_eq!(cache.recomputes_so_far(), 2);
}

#[test]
fn editing_a_line_invalidates_exactly_that_line() {
    let mut buf = load_text(&chars("ab\ncd"), None);
    let mut cache = HighlightCache::new();
    cache.spans_for(&buf, 0, None);
    cache.spans_for(&buf, 1, None);
    assert_eq!(cache.recomputes_so_far(), 2);
    buf.insert_char(0, 0, 'x');
    let spans = cache.spans_for(&buf, 0, None);
    assert_eq!(concat_text(&spans), "xab");
    assert_eq!(cache.recomputes_so_far(), 3);
    cache.spans_for(&buf, 1, None);
    assert_eq!(cache.recomputes_so_far(), 3);
}

#[test]
fn invalidate_from_drops_later_lines_after_a_split() {
    let mut buf = load_text(&chars("ab\ncd\nef"), None);
    let mut cache = HighlightCache::new();
    for row in 0..3 {
        cache.spans_for(&buf, row, None);
    }
    assert_eq!(cache.recomputes_so_far(), 3);
    // Split line 0: rows after it shift identity.
    buf.split_line(0, 1);
    cache.invalidate_from(0);
    let spans = cache.spans_for(&buf, 3, None);
    assert_eq!(concat_text(&spans), "ef");
    assert_eq!(cache.recomputes_so_far(), 4);
}

#[test]
fn bundled_highlighting_styles_a_code_line() {
    let ctx = HighlightContext::for_extension("rs", "base16-ocean.dark")
        .expect("the bundled definitions know the extension and theme");
    let buf = load_text(&chars("fn main() { let x = 1; }"), None);
    let mut cache = HighlightCache::new();
    let spans = cache.spans_for(&buf, 0, Some(&ctx));
    // The collaborator must hand the line back split into styled
    // regions whose concatenation is exactly the line.
    assert_eq!(concat_text(&spans), "fn main() { let x = 1; }");
    assert!(spans.len() > 1);
    // A highlighted line is not all one style.
    let first = spans[0].style;
    assert!(spans.iter().any(|s| s.style != first));
}

#[test]
fn unknown_extension_or_theme_gives_no_context() {
    assert!(HighlightContext::for_extension("zzzqqq", "base16-ocean.dark").is_none());
    assert!(HighlightContext::for_extension("rs", "no such theme").is_none());
}

#[test]
fn a_session_redraws_only_the_touched_line() {
    let buf = load_text(&chars("ab\ncd\nef"), None);
    let mut session = EditorSession::new(buf, 3, None);
    // First cycle: nothing was drawn before, so the plan is a full
    // redraw of the window.
    let res = session.handle_event(InputEvent::Other);
    assert!(res.plan.full);
    // An unrecognized event changes nothing: nothing to redraw.
    let res = session.handle_event(InputEvent::Other);
    assert!(!res.plan.full);
    assert!(res.plan.rows.is_empty());
    // One character on line 0 redraws exactly window row 0.
    let res = session.handle_event(InputEvent::Char('x'));
    assert!(!res.plan.full);
    assert_eq!(res.plan.rows, vec![0]);
    assert_eq!(res.glyph_row, 0);
    assert_eq!(res.glyph_col, 1);
}

#[test]
fn a_session_scroll_forces_a_full_redraw() {
    let text = (0..10).map(|i| i.to_string()).collect::<Vec<_>>().join("\n");
    let buf = load_text(&chars(&text), None);
    let mut session = EditorSession::new(buf, 3, None);
    session.handle_event(InputEvent::Other);
    session.handle_event(InputEvent::Arrow(Direction::Down));
    session.handle_event(InputEvent::Arrow(Direction::Down));
    let res = session.handle_event(InputEvent::Arrow(Direction::Down));
    assert!(res.outcome.scrolled);
    assert!(res.plan.full);
    assert_eq!(res.glyph_row, 2);
}

#[test]
fn a_session_save_cycle_reports_and_clears() {
    let mut session = EditorSession::new(TextBuffer::empty(), 3, None);
    session.handle_event(InputEvent::Char('a'));
    let res = session.handle_event(InputEvent::SaveKey);
    assert!(res.outcome.save_requested);
    // No path recorded: the save fails with a reported error and the
    // buffer stays dirty; nothing was handed out to write.
    let r = prepare_save(&session.editor.buffer);
    assert_eq!(r.err(), Some(SaveError::NoPath));
    assert!(session.editor.buffer.dirty());
}

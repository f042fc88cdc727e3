use tedit::document::Document;
use tedit::editor::Editor;
use tedit::editor::Key;
use tedit::editor::PromptOutcome;
use tedit::editor::QUIT_TIMES;
use tedit::editor::prompt_result;
use tedit::editor::prompt_step;
use tedit::editor::welcome_row;

fn doc_of(lines: &[&str]) -> Document {
    let owned: Vec<String> = lines.iter().map(|s| String::from(*s)).collect();
    Document::from_lines(String::from("test.txt"), &owned)
}

fn editor_over(d: Document) -> Editor {
    Editor::new(d, 80, 24, String::new())
}

fn row_text(e: &Editor, y: usize) -> String {
    e.document.row(y).unwrap().contents()
}

#[test]
fn empty_document_right_then_typing() {
    let mut e = editor_over(Document::new());
    e.process_key(Key::Right);
    assert_eq!((e.position.x, e.position.y), (0, 0));
    e.process_key(Key::Char('h'));
    e.process_key(Key::Char('i'));
    assert_eq!(e.document.len(), 1);
    assert_eq!(row_text(&e, 0), "hi");
    assert_eq!((e.position.x, e.position.y), (2, 0));
}

#[test]
fn delete_at_row_end_joins() {
    let mut e = editor_over(doc_of(&["ab", "cd"]));
    e.process_key(Key::Right);
    e.process_key(Key::Right);
    assert_eq!((e.position.x, e.position.y), (2, 0));
    e.process_key(Key::Delete);
    assert_eq!(e.document.len(), 1);
    assert_eq!(row_text(&e, 0), "abcd");
}

#[test]
fn backspace_at_document_start_is_noop() {
    let mut e = editor_over(doc_of(&["abc"]));
    e.process_key(Key::Backspace);
    assert_eq!(e.document.len(), 1);
    assert_eq!(row_text(&e, 0), "abc");
    assert_eq!((e.position.x, e.position.y), (0, 0));
    assert!(!e.document.is_dirty());
}

#[test]
fn typing_newline_splits_and_backspace_undoes() {
    let mut e = editor_over(doc_of(&["ab"]));
    e.process_key(Key::Right);
    e.process_key(Key::Char('\n'));
    assert_eq!(e.document.len(), 2);
    assert_eq!(row_text(&e, 0), "a");
    assert_eq!(row_text(&e, 1), "b");
    assert_eq!((e.position.x, e.position.y), (0, 1));
    e.process_key(Key::Backspace);
    assert_eq!(e.document.len(), 1);
    assert_eq!(row_text(&e, 0), "ab");
    assert_eq!((e.position.x, e.position.y), (1, 0));
}

#[test]
fn quit_needs_three_presses_when_dirty() {
    let mut e = editor_over(doc_of(&["ab"]));
    e.process_key(Key::Char('x'));
    assert!(e.document.is_dirty());
    e.process_key(Key::Ctrl('q'));
    assert!(!e.should_quit);
    assert_eq!(
        e.status_message.text,
        "WARNING! File has unsaved changes. Press Ctrl-Q 2 more times to quit."
    );
    e.process_key(Key::Ctrl('q'));
    assert!(!e.should_quit);
    e.process_key(Key::Ctrl('q'));
    assert!(e.should_quit);
}

#[test]
fn other_key_resets_quit_countdown() {
    let mut e = editor_over(doc_of(&["ab"]));
    e.process_key(Key::Char('x'));
    e.process_key(Key::Ctrl('q'));
    e.process_key(Key::Ctrl('q'));
    assert!(!e.should_quit);
    e.process_key(Key::Char('y'));
    assert_eq!(e.quit_times, QUIT_TIMES);
    assert_eq!(e.status_message.text, "");
    e.process_key(Key::Ctrl('q'));
    e.process_key(Key::Ctrl('q'));
    assert!(!e.should_quit);
    e.process_key(Key::Ctrl('q'));
    assert!(e.should_quit);
}

#[test]
fn quit_is_immediate_when_clean() {
    let mut e = editor_over(doc_of(&["ab"]));
    assert!(!e.document.is_dirty());
    e.process_key(Key::Ctrl('q'));
    assert!(e.should_quit);
}

#[test]
fn cursor_stays_valid_under_movement() {
    let mut e = editor_over(doc_of(&["abcd", "x", "", "yz"]));
    let keys = [
        Key::End,
        Key::Down,
        Key::Down,
        Key::Right,
        Key::Right,
        Key::Up,
        Key::Left,
        Key::PageDown,
        Key::End,
        Key::Right,
        Key::PageUp,
        Key::Home,
        Key::Left,
        Key::Down,
        Key::End,
    ];
    for k in keys {
        e.process_key(k);
        let rows = e.document.len();
        assert!(e.position.y < rows);
        let w = e.document.row(e.position.y).unwrap().len();
        assert!(e.position.x <= w);
    }
}

#[test]
fn left_and_right_wrap_between_rows() {
    let mut e = editor_over(doc_of(&["ab", "cd"]));
    e.process_key(Key::End);
    assert_eq!((e.position.x, e.position.y), (2, 0));
    e.process_key(Key::Right);
    assert_eq!((e.position.x, e.position.y), (0, 1));
    e.process_key(Key::Left);
    assert_eq!((e.position.x, e.position.y), (2, 0));
    // At the end of the last row, Right stays put.
    e.process_key(Key::Down);
    e.process_key(Key::End);
    e.process_key(Key::Right);
    assert_eq!((e.position.x, e.position.y), (2, 1));
}

#[test]
fn scroll_follows_cursor() {
    let mut e = Editor::new(doc_of(&["abcdefgh"]), 3, 2, String::new());
    e.process_key(Key::End);
    assert_eq!(e.position.x, 8);
    // The offset follows by exactly the overshoot: 8 - 3 + 1.
    assert_eq!(e.offset.x, 6);
    e.process_key(Key::Home);
    assert_eq!(e.offset.x, 0);
}

#[test]
fn status_bar_layout() {
    let mut e = Editor::new(doc_of(&["ab", "cd"]), 30, 24, String::new());
    assert_eq!(e.status_bar_text(), "test.txt - 2 lines         1/2");
    e.process_key(Key::Char('x'));
    let s = e.status_bar_text();
    assert_eq!(s, "test.txt - 2 lines (modified)1");
    let narrow = Editor::new(doc_of(&["ab"]), 10, 24, String::new());
    assert_eq!(narrow.status_bar_text(), "test.txt -");
}

#[test]
fn unnamed_document_status_bar() {
    let e = Editor::new(Document::new(), 25, 24, String::new());
    assert_eq!(e.status_bar_text(), "[No Name] - 0 lines   1/0");
}

#[test]
fn prompt_accumulates_and_confirms() {
    let mut buf = String::new();
    assert!(matches!(prompt_step(&mut buf, Key::Char('a')), PromptOutcome::Pending));
    assert!(matches!(prompt_step(&mut buf, Key::Char('b')), PromptOutcome::Pending));
    assert_eq!(buf, "ab");
    assert!(matches!(prompt_step(&mut buf, Key::Backspace), PromptOutcome::Pending));
    assert_eq!(buf, "a");
    // Control characters are refused.
    assert!(matches!(prompt_step(&mut buf, Key::Char('\u{7}')), PromptOutcome::Pending));
    assert_eq!(buf, "a");
    // Ignored keys change nothing.
    assert!(matches!(prompt_step(&mut buf, Key::Up), PromptOutcome::Pending));
    assert!(matches!(prompt_step(&mut buf, Key::Char('\n')), PromptOutcome::Confirmed));
    assert_eq!(prompt_result(buf), Some(String::from("a")));
}

#[test]
fn prompt_escape_cancels_to_empty() {
    let mut buf = String::new();
    prompt_step(&mut buf, Key::Char('a'));
    assert!(matches!(prompt_step(&mut buf, Key::Esc), PromptOutcome::Cancelled));
    assert_eq!(buf, "");
    assert_eq!(prompt_result(buf), None);
    let mut empty = String::new();
    prompt_step(&mut empty, Key::Backspace);
    assert_eq!(prompt_result(empty), None);
}

#[test]
fn save_workflow_names_saves_and_reports() {
    let mut e = editor_over(Document::new());
    e.process_key(Key::Char('x'));
    assert!(e.document.is_dirty());
    // No filename and a cancelled prompt: the save is aborted.
    assert!(!e.prepare_save(None));
    assert_eq!(e.status_message.text, "Save aborted");
    // A prompted name lets the save proceed.
    assert!(e.prepare_save(Some(String::from("new.txt"))));
    assert!(e.document.has_filename());
    e.finish_save(true);
    assert!(!e.document.is_dirty());
    assert_eq!(e.status_message.text, "File saved successfully");
    // A failed write keeps the document dirty.
    e.process_key(Key::Char('y'));
    assert!(e.prepare_save(None));
    e.finish_save(false);
    assert!(e.document.is_dirty());
    assert_eq!(e.status_message.text, "Error saving file");
}

#[test]
fn save_key_is_reported_to_the_caller() {
    let mut e = editor_over(doc_of(&["ab"]));
    assert!(e.process_key(Key::Ctrl('s')));
    assert!(!e.process_key(Key::Char('a')));
}

#[test]
fn welcome_banner_is_centred_and_cut() {
    assert_eq!(welcome_row(40), "~ Tedit -- a tiny terminal text editor");
    assert_eq!(welcome_row(10), "~Tedit -- ");
    assert_eq!(welcome_row(0), "");
}

#[test]
fn status_bar_multi_digit_counts() {
    let lines: Vec<&str> = std::iter::repeat("x").take(12).collect();
    let mut e = Editor::new(doc_of(&lines), 40, 24, String::new());
    for _ in 0..11 {
        e.process_key(Key::Down);
    }
    assert_eq!(e.status_bar_text(), "test.txt - 12 lines                12/12");
}

#[test]
fn page_keys_jump_by_window_height() {
    let lines: Vec<&str> = std::iter::repeat("r").take(30).collect();
    let mut e = Editor::new(doc_of(&lines), 80, 5, String::new());
    e.process_key(Key::PageDown);
    assert_eq!(e.position.y, 5);
    e.process_key(Key::PageDown);
    assert_eq!(e.position.y, 10);
    e.process_key(Key::PageUp);
    assert_eq!(e.position.y, 5);
    e.process_key(Key::PageUp);
    assert_eq!(e.position.y, 0);
    // A jump past the last row lands on it.
    for _ in 0..10 {
        e.process_key(Key::PageDown);
    }
    assert_eq!(e.position.y, 29);
}

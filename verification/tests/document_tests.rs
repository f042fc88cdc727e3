use tedit::Position;
use tedit::document::Document;

fn doc_of(lines: &[&str]) -> Document {
    let owned: Vec<String> = lines.iter().map(|s| String::from(*s)).collect();
    Document::from_lines(String::from("test.txt"), &owned)
}

fn line_texts(d: &Document) -> Vec<String> {
    d.lines()
}

#[test]
fn new_is_empty_clean_unnamed() {
    let d = Document::new();
    assert_eq!(d.len(), 0);
    assert!(d.is_empty());
    assert!(!d.is_dirty());
    assert!(!d.has_filename());
}

#[test]
fn load_then_save_lines_roundtrip() {
    let d = doc_of(&["ab", "", "c\td", "e\u{301}f"]);
    assert!(!d.is_dirty());
    assert!(d.has_filename());
    assert_eq!(d.len(), 4);
    let out = line_texts(&d);
    assert_eq!(out, vec!["ab", "", "c\td", "e\u{301}f"]);
}

#[test]
fn edits_set_dirty_and_save_clears_it() {
    let mut d = doc_of(&["ab"]);
    assert!(!d.is_dirty());
    d.insert(&Position { x: 1, y: 0 }, 'z');
    assert!(d.is_dirty());
    assert_eq!(line_texts(&d), vec!["azb"]);
    d.mark_saved();
    assert!(!d.is_dirty());
    d.delete(&Position { x: 0, y: 0 });
    assert!(d.is_dirty());
    assert_eq!(line_texts(&d), vec!["zb"]);
}

#[test]
fn newline_splits_and_backspace_join_undoes_it() {
    let mut d = doc_of(&["ab"]);
    d.insert(&Position { x: 1, y: 0 }, '\n');
    assert_eq!(d.len(), 2);
    assert_eq!(line_texts(&d), vec!["a", "b"]);
    // A backspace at the start of the new row deletes at the end of the row
    // above it, joining the two rows back together.
    d.delete(&Position { x: 1, y: 0 });
    assert_eq!(d.len(), 1);
    assert_eq!(line_texts(&d), vec!["ab"]);
}

#[test]
fn delete_at_row_end_joins_rows() {
    let mut d = doc_of(&["ab", "cd"]);
    d.delete(&Position { x: 2, y: 0 });
    assert_eq!(d.len(), 1);
    assert_eq!(line_texts(&d), vec!["abcd"]);
}

#[test]
fn delete_past_document_is_noop() {
    let mut d = doc_of(&["ab"]);
    d.delete(&Position { x: 0, y: 5 });
    assert!(!d.is_dirty());
    assert_eq!(line_texts(&d), vec!["ab"]);
}

#[test]
fn insert_past_last_row_appends_row() {
    let mut d = Document::new();
    d.insert(&Position { x: 0, y: 0 }, 'h');
    assert_eq!(d.len(), 1);
    assert_eq!(line_texts(&d), vec!["h"]);
    let mut d2 = doc_of(&["ab"]);
    d2.insert(&Position { x: 0, y: 9 }, 'z');
    assert_eq!(line_texts(&d2), vec!["ab", "z"]);
}

#[test]
fn row_accessor_is_bounds_checked() {
    let d = doc_of(&["ab"]);
    assert!(d.row(0).is_some());
    assert_eq!(d.row(0).unwrap().len(), 2);
    assert!(d.row(1).is_none());
}

#[test]
fn set_filename_takes_effect() {
    let mut d = Document::new();
    assert!(!d.has_filename());
    d.set_filename(String::from("out.txt"));
    assert!(d.has_filename());
    assert_eq!(d.get_filename(), Some(String::from("out.txt")));
}

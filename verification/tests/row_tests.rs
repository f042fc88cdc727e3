use tedit::row::Row;

#[test]
fn from_len_contents() {
    let r = Row::from("ab");
    assert_eq!(r.len(), 2);
    assert!(!r.is_empty());
    assert_eq!(r.contents(), "ab");
    let e = Row::new();
    assert!(e.is_empty());
    assert_eq!(e.contents(), "");
}

#[test]
fn grapheme_length_not_char_length() {
    // 'e' followed by a combining acute accent is one cluster of two chars.
    let r = Row::from("e\u{301}x");
    assert_eq!(r.len(), 2);
    assert_eq!(r.contents(), "e\u{301}x");
    // Deleting the first cluster removes both code points at once.
    let mut r2 = Row::from("e\u{301}x");
    r2.delete(0);
    assert_eq!(r2.contents(), "x");
}

#[test]
fn insert_middle_and_append() {
    let mut r = Row::from("ab");
    r.insert(1, 'c');
    assert_eq!(r.contents(), "acb");
    assert_eq!(r.len(), 3);
    let mut r2 = Row::from("ab");
    r2.insert(99, 'c');
    assert_eq!(r2.contents(), "abc");
}

#[test]
fn delete_in_range_and_past_end() {
    let mut r = Row::from("abc");
    r.delete(0);
    assert_eq!(r.contents(), "bc");
    r.delete(7);
    assert_eq!(r.contents(), "bc");
    assert_eq!(r.len(), 2);
}

#[test]
fn delete_then_insert_replaces() {
    let mut r = Row::from("abc");
    r.delete(1);
    r.insert(1, 'z');
    assert_eq!(r.contents(), "azc");
}

#[test]
fn split_then_append_restores() {
    let mut r = Row::from("hello");
    let tail = r.split(2);
    assert_eq!(r.contents(), "he");
    assert_eq!(tail.contents(), "llo");
    r.append(&tail);
    assert_eq!(r.contents(), "hello");
    assert_eq!(r.len(), 5);

    let mut r2 = Row::from("xy");
    let tail2 = r2.split(9);
    assert_eq!(r2.contents(), "xy");
    assert!(tail2.is_empty());
}

#[test]
fn render_substitutes_tab_and_clamps() {
    let r = Row::from("a\tb");
    assert_eq!(r.render(0, 3), "a b");
    assert_eq!(r.render(1, 2), " ");
    assert_eq!(r.render(0, 99), "a b");
    assert_eq!(r.render(99, 2), "");
    assert_eq!(r.render(2, 1), "");
}

//! The editor controller: cursor movement bounded by the document's shape,
//! viewport scrolling, key dispatch, the quit-confirmation counter and the
//! save workflow. Everything here is pure state transformation; reading keys
//! and painting the screen happen outside, against these contracts.

use vstd::prelude::*;

use crate::Position;
use crate::document::Document;
use crate::document::doc_delete;
use crate::document::doc_insert;
use crate::document::row_len_at;
use crate::text::push_char;
use crate::text::chars_of;
use crate::text::pop_char;
use crate::text::push_str_onto;
use crate::text::string_from_chars;

verus! {

/// How many consecutive presses of the quit key it takes to leave a dirty
/// document without saving.
pub const QUIT_TIMES: u8 = 3;

/// One logical key event, as the controller understands it. The terminal
/// layer decodes raw input into this.
#[derive(Clone, Copy, PartialEq, Eq, Structural)]
pub enum Key {
    Up,
    Down,
    Left,
    Right,
    PageUp,
    PageDown,
    Home,
    End,
    Backspace,
    Delete,
    Esc,
    Char(char),
    Ctrl(char),
}

/// A transient status-bar message. The display layer decides for how long to
/// show it; the controller only sets the text.
pub struct StatusMessage {
    pub text: String,
}

impl StatusMessage {
    pub fn from(message: String) -> (m: StatusMessage)
        ensures
            m.text == message,
    {
        StatusMessage { text: message }
    }
}

/// `a + b` capped at `usize::MAX`.
pub open spec fn sat_add(a: int, b: int) -> int {
    if a + b <= usize::MAX {
        a + b
    } else {
        usize::MAX as int
    }
}

/// `a - b`, floored at zero.
pub open spec fn sat_sub(a: int, b: int) -> int {
    if a >= b {
        a - b
    } else {
        0
    }
}

fn sat_add_usize(a: usize, b: usize) -> (r: usize)
    ensures
        r as int == sat_add(a as int, b as int),
{
    if a <= usize::MAX - b {
        a + b
    } else {
        usize::MAX
    }
}

fn sat_sub_usize(a: usize, b: usize) -> (r: usize)
    ensures
        r as int == sat_sub(a as int, b as int),
{
    if a >= b {
        a - b
    } else {
        0
    }
}

/// One axis of the scroll rule: an offset follows the cursor up to it when
/// the cursor is above the window, and down by exactly the overshoot when the
/// cursor is at or past its lower edge; otherwise it stays.
pub open spec fn scrolled(pos: int, off: int, size: int) -> int {
    if pos < off {
        pos
    } else if pos >= sat_add(off, size) {
        sat_add(sat_sub(pos, size), 1)
    } else {
        off
    }
}

/// A valid cursor for a document: on an existing row (or row 0 of an empty
/// document), no further right than the end of its row.
pub open spec fn cursor_ok(rows: Seq<Seq<Seq<char>>>, x: int, y: int) -> bool {
    &&& 0 <= y
    &&& y == 0 || y < rows.len()
    &&& 0 <= x <= row_len_at(rows, y)
}

/// The cursor position a movement key leads to, from `(x0, y0)`: the rules of
/// `move_cursor`, with the final clamp of `x` to the landing row's length.
pub open spec fn moved_xy(rows: Seq<Seq<Seq<char>>>, height: int, x0: int, y0: int, key: Key) -> (
    int,
    int,
) {
    let h = rows.len() as int;
    let w = row_len_at(rows, y0);
    let step = match key {
        Key::Up => (x0, if y0 > 0 {
            y0 - 1
        } else {
            0
        }),
        Key::Down => (x0, if y0 + 1 < h {
            y0 + 1
        } else {
            y0
        }),
        Key::Left => if x0 > 0 {
            (x0 - 1, y0)
        } else if y0 > 0 {
            (row_len_at(rows, y0 - 1), y0 - 1)
        } else {
            (x0, y0)
        },
        Key::Right => if x0 < w {
            (x0 + 1, y0)
        } else if y0 + 1 < h {
            (0, y0 + 1)
        } else {
            (x0, y0)
        },
        Key::PageUp => (x0, if y0 > height {
            y0 - height
        } else {
            0
        }),
        Key::PageDown => (x0, if y0 + height < h {
            y0 + height
        } else if h > 0 {
            h - 1
        } else {
            y0
        }),
        Key::Home => (0, y0),
        Key::End => (w, y0),
        _ => (x0, y0),
    };
    let w2 = row_len_at(rows, step.1);
    (if step.0 <= w2 {
        step.0
    } else {
        w2
    }, step.1)
}

/// Movement keeps the cursor valid: from any valid position, any movement
/// key lands on an existing row (or row 0 of an empty document) and no
/// further right than the end of that row.
pub proof fn lemma_moved_xy_valid(rows: Seq<Seq<Seq<char>>>, height: int, x0: int, y0: int, key: Key)
    requires
        cursor_ok(rows, x0, y0),
        0 <= height,
    ensures
        ({
            let (nx, ny) = moved_xy(rows, height, x0, y0, key);
            cursor_ok(rows, nx, ny)
        }),
{
}

/// The decimal digit `n` as a character.
pub open spec fn digit(n: nat) -> char {
    if n == 0 {
        '0'
    } else if n == 1 {
        '1'
    } else if n == 2 {
        '2'
    } else if n == 3 {
        '3'
    } else if n == 4 {
        '4'
    } else if n == 5 {
        '5'
    } else if n == 6 {
        '6'
    } else if n == 7 {
        '7'
    } else if n == 8 {
        '8'
    } else {
        '9'
    }
}

fn digit_char(n: u8) -> (c: char)
    requires
        n < 10,
    ensures
        c == digit(n as nat),
{
    if n == 0 {
        '0'
    } else if n == 1 {
        '1'
    } else if n == 2 {
        '2'
    } else if n == 3 {
        '3'
    } else if n == 4 {
        '4'
    } else if n == 5 {
        '5'
    } else if n == 6 {
        '6'
    } else if n == 7 {
        '7'
    } else if n == 8 {
        '8'
    } else {
        '9'
    }
}

/// The text of the unsaved-changes warning, with `n` presses of the quit key
/// still to go.
pub open spec fn quit_warning_text(n: nat) -> Seq<char> {
    "WARNING! File has unsaved changes. Press Ctrl-Q "@.push(digit(n))
        + " more times to quit."@
}

fn quit_warning(n: u8) -> (s: String)
    requires
        n < 10,
    ensures
        s@ == quit_warning_text(n as nat),
{
    let mut s = String::new();
    push_str_onto(&mut s, "WARNING! File has unsaved changes. Press Ctrl-Q ");
    push_char(&mut s, digit_char(n));
    push_str_onto(&mut s, " more times to quit.");
    proof {
        assert(s@ =~= quit_warning_text(n as nat));
    }
    s
}

/// Whether `c` is a control character (the C0 and C1 ranges plus delete),
/// which the prompt refuses to put into a filename.
pub open spec fn is_control_char(c: char) -> bool {
    (c as u32) < 32 || (127 <= (c as u32) && (c as u32) < 160)
}

fn is_control(c: char) -> (b: bool)
    ensures
        b == is_control_char(c),
{
    let u = c as u32;
    u < 32 || (u >= 127 && u < 160)
}

/// The document's rows after one key event at cursor `(x0, y0)`: an insert
/// for a character key, a delete at the cursor for the delete key, a delete
/// one step to the left for backspace (a no-op at the very start), and no
/// change for every other key.
pub open spec fn key_doc(rows: Seq<Seq<Seq<char>>>, h: int, x0: int, y0: int, key: Key) -> Seq<
    Seq<Seq<char>>,
> {
    match key {
        Key::Char(c) => doc_insert(rows, x0, y0, c),
        Key::Delete => doc_delete(rows, x0, y0),
        Key::Backspace => if x0 > 0 || y0 > 0 {
            let (nx, ny) = moved_xy(rows, h, x0, y0, Key::Left);
            doc_delete(rows, nx, ny)
        } else {
            rows
        },
        _ => rows,
    }
}

/// The cursor after one key event: a character key inserts and then moves
/// right over the new document, backspace moves left, movement keys move,
/// everything else leaves the cursor alone.
pub open spec fn key_pos(rows: Seq<Seq<Seq<char>>>, h: int, x0: int, y0: int, key: Key) -> (
    int,
    int,
) {
    match key {
        Key::Char(c) => moved_xy(doc_insert(rows, x0, y0, c), h, x0, y0, Key::Right),
        Key::Backspace => if x0 > 0 || y0 > 0 {
            moved_xy(rows, h, x0, y0, Key::Left)
        } else {
            (x0, y0)
        },
        Key::Up | Key::Down | Key::Left | Key::Right | Key::PageUp | Key::PageDown | Key::Home
            | Key::End => moved_xy(rows, h, x0, y0, key),
        _ => (x0, y0),
    }
}

/// The dirty flag after one key event: edits make the document dirty
/// (a delete past the last row and a backspace at the very start change
/// nothing), all other keys leave it.
pub open spec fn key_dirty(dirty0: bool, rows: Seq<Seq<Seq<char>>>, x0: int, y0: int, key: Key) -> bool {
    match key {
        Key::Char(_) => true,
        Key::Delete => dirty0 || y0 < rows.len(),
        Key::Backspace => if x0 > 0 || y0 > 0 {
            true
        } else {
            dirty0
        },
        _ => dirty0,
    }
}

/// Inserting a character anywhere keeps the cursor valid: the row it sits on
/// still exists and is at least as long up to the cursor.
pub proof fn lemma_insert_keeps_cursor(rows: Seq<Seq<Seq<char>>>, x0: int, y0: int, c: char)
    requires
        cursor_ok(rows, x0, y0),
    ensures
        cursor_ok(doc_insert(rows, x0, y0, c), x0, y0),
{
    let rows2 = doc_insert(rows, x0, y0, c);
    if c == '\n' {
        if y0 < rows.len() {
            let cut = crate::row::clip(x0, rows[y0].len() as int);
            let upd = rows.update(y0, rows[y0].subrange(0, cut));
            upd.insert_ensures(y0 + 1, rows[y0].subrange(cut, rows[y0].len() as int));
            assert(rows2[y0] == upd[y0]);
            assert(row_len_at(rows2, y0) == cut);
        }
    } else {
        if y0 < rows.len() {
            let cut = crate::row::clip(x0, rows[y0].len() as int);
            rows[y0].insert_ensures(cut, seq![c]);
            assert(rows2[y0] == rows[y0].insert(cut, seq![c]));
            assert(row_len_at(rows2, y0) == rows[y0].len() + 1);
        }
    }
}

/// Deleting at the cursor keeps the cursor valid: a join only lengthens the
/// cursor's row, and an in-row removal happens at or right of the cursor.
pub proof fn lemma_delete_keeps_cursor(rows: Seq<Seq<Seq<char>>>, x0: int, y0: int)
    requires
        cursor_ok(rows, x0, y0),
    ensures
        cursor_ok(doc_delete(rows, x0, y0), x0, y0),
{
    let rows2 = doc_delete(rows, x0, y0);
    if 0 <= y0 < rows.len() {
        if x0 == rows[y0].len() && y0 + 1 < rows.len() {
            let upd = rows.update(y0, rows[y0] + rows[y0 + 1]);
            upd.remove_ensures(y0 + 1);
            assert(rows2[y0] == upd[y0]);
            assert(row_len_at(rows2, y0) == rows[y0].len() + rows[y0 + 1].len());
        } else {
            assert(rows2[y0] == crate::document::row_delete(rows[y0], x0));
            if 0 <= x0 < rows[y0].len() {
                rows[y0].remove_ensures(x0);
                assert(row_len_at(rows2, y0) == rows[y0].len() - 1);
            }
        }
    }
}

/// The editor's whole state: the document, the cursor and scroll offset, the
/// terminal text area's size, the quit-confirmation counter, and the current
/// status message.
pub struct Editor {
    pub should_quit: bool,
    pub position: Position,
    pub offset: Position,
    pub document: Document,
    pub status_message: StatusMessage,
    pub quit_times: u8,
    pub width: usize,
    pub height: usize,
}

impl Editor {
    /// The document's rows are well-formed, the cursor is valid for them, and
    /// the quit counter is within its configured range.
    pub open spec fn wf(&self) -> bool {
        &&& self.document.wf()
        &&& cursor_ok(self.document@, self.position.x as int, self.position.y as int)
        &&& 1 <= self.quit_times <= QUIT_TIMES
    }

    /// A fresh editor over `document`, cursor and offset at the origin, with
    /// a terminal text area of `width` by `height` cells.
    pub fn new(document: Document, width: usize, height: usize, initial_status: String) -> (e:
        Editor)
        requires
            document.wf(),
        ensures
            e.wf(),
            e.document == document,
            e.position.x == 0 && e.position.y == 0,
            e.offset.x == 0 && e.offset.y == 0,
            !e.should_quit,
            e.quit_times == QUIT_TIMES,
            e.status_message.text == initial_status,
            e.width == width,
            e.height == height,
    {
        Editor {
            should_quit: false,
            position: Position { x: 0, y: 0 },
            offset: Position { x: 0, y: 0 },
            document,
            status_message: StatusMessage { text: initial_status },
            quit_times: QUIT_TIMES,
            width,
            height,
        }
    }

    /// Applies one movement key to the cursor; everything else is untouched.
    pub fn move_cursor(&mut self, key: Key)
        requires
            old(self).wf(),
        ensures
            final(self).wf(),
            ({
                let (nx, ny) = moved_xy(
                    old(self).document@,
                    old(self).height as int,
                    old(self).position.x as int,
                    old(self).position.y as int,
                    key,
                );
                final(self).position.x == nx && final(self).position.y == ny
            }),
            final(self).document == old(self).document,
            final(self).offset == old(self).offset,
            final(self).should_quit == old(self).should_quit,
            final(self).quit_times == old(self).quit_times,
            final(self).status_message == old(self).status_message,
            final(self).width == old(self).width,
            final(self).height == old(self).height,
    {
        let mut x = self.position.x;
        let mut y = self.position.y;
        let height = self.height;
        let h = self.document.len();
        let w = match self.document.row(y) {
            Some(row) => row.len(),
            None => 0,
        };
        match key {
            Key::Up => {
                y = if y > 0 {
                    y - 1
                } else {
                    0
                };
            },
            Key::Down => {
                if y + 1 < h {
                    y = y + 1;
                }
            },
            Key::Left => {
                if x > 0 {
                    x = x - 1;
                } else if y > 0 {
                    y = y - 1;
                    x = match self.document.row(y) {
                        Some(row) => row.len(),
                        None => 0,
                    };
                }
            },
            Key::Right => {
                if x < w {
                    x = x + 1;
                } else if y + 1 < h {
                    y = y + 1;
                    x = 0;
                }
            },
            Key::PageUp => {
                y = if y > height {
                    y - height
                } else {
                    0
                };
            },
            Key::PageDown => {
                if height <= usize::MAX - y && y + height < h {
                    y = y + height;
                } else if h > 0 {
                    y = h - 1;
                }
            },
            Key::Home => {
                x = 0;
            },
            Key::End => {
                x = w;
            },
            _ => {},
        }
        let w2 = match self.document.row(y) {
            Some(row) => row.len(),
            None => 0,
        };
        if x > w2 {
            x = w2;
        }
        self.position = Position { x, y };
    }

    /// Recomputes the scroll offset so that the cursor lies inside the
    /// visible window (whenever the window has any cells on that axis),
    /// moving each axis only by the overshoot.
    pub fn scroll(&mut self)
        requires
            old(self).wf(),
        ensures
            final(self).wf(),
            final(self).offset.x as int == scrolled(
                old(self).position.x as int,
                old(self).offset.x as int,
                old(self).width as int,
            ),
            final(self).offset.y as int == scrolled(
                old(self).position.y as int,
                old(self).offset.y as int,
                old(self).height as int,
            ),
            old(self).width >= 1 ==> final(self).offset.x <= old(self).position.x
                && (old(self).position.x as int) < final(self).offset.x + old(self).width,
            old(self).height >= 1 ==> final(self).offset.y <= old(self).position.y
                && (old(self).position.y as int) < final(self).offset.y + old(self).height,
            final(self).position == old(self).position,
            final(self).document == old(self).document,
            final(self).should_quit == old(self).should_quit,
            final(self).quit_times == old(self).quit_times,
            final(self).status_message == old(self).status_message,
            final(self).width == old(self).width,
            final(self).height == old(self).height,
    {
        let x = self.position.x;
        let y = self.position.y;
        let width = self.width;
        let height = self.height;
        if y < self.offset.y {
            self.offset.y = y;
        } else if y >= sat_add_usize(self.offset.y, height) {
            self.offset.y = sat_add_usize(sat_sub_usize(y, height), 1);
        }
        if x < self.offset.x {
            self.offset.x = x;
        } else if x >= sat_add_usize(self.offset.x, width) {
            self.offset.x = sat_add_usize(sat_sub_usize(x, width), 1);
        }
    }

    /// Dispatches one key event: quit confirmation, edits, cursor movement.
    /// Afterwards (except while a quit warning is being shown) the viewport
    /// follows the cursor and the quit counter is reset. Returns whether the
    /// save key was pressed; the save workflow itself needs the outside
    /// world (a filename prompt, the file write) and is driven by the caller
    /// through `prepare_save` and `finish_save`.
    pub fn process_key(&mut self, key: Key) -> (save_requested: bool)
        requires
            old(self).wf(),
        ensures
            final(self).wf(),
            final(self).width == old(self).width,
            final(self).height == old(self).height,
            save_requested == (key == Key::Ctrl('s')),
            quit_pending(*old(self), key) ==> ({
                &&& final(self).should_quit == old(self).should_quit
                &&& final(self).quit_times == old(self).quit_times - 1
                &&& final(self).document == old(self).document
                &&& final(self).position == old(self).position
                &&& final(self).offset == old(self).offset
                &&& final(self).status_message.text@ == quit_warning_text(
                    (old(self).quit_times - 1) as nat,
                )
            }),
            !quit_pending(*old(self), key) ==> ({
                let rows = old(self).document@;
                let h = old(self).height as int;
                let x0 = old(self).position.x as int;
                let y0 = old(self).position.y as int;
                let (px, py) = key_pos(rows, h, x0, y0, key);
                &&& final(self).document@ == key_doc(rows, h, x0, y0, key)
                &&& final(self).document.dirty_flag() == key_dirty(
                    old(self).document.dirty_flag(),
                    rows,
                    x0,
                    y0,
                    key,
                )
                &&& final(self).document.spec_filename() == old(self).document.spec_filename()
                &&& final(self).position.x as int == px
                &&& final(self).position.y as int == py
                &&& final(self).offset.x as int == scrolled(
                    px,
                    old(self).offset.x as int,
                    old(self).width as int,
                )
                &&& final(self).offset.y as int == scrolled(
                    py,
                    old(self).offset.y as int,
                    old(self).height as int,
                )
                &&& final(self).should_quit == (old(self).should_quit || key == Key::Ctrl('q'))
                &&& final(self).quit_times == QUIT_TIMES
                &&& (old(self).quit_times < QUIT_TIMES ==> final(self).status_message.text@
                    == Seq::<char>::empty())
                &&& (old(self).quit_times == QUIT_TIMES ==> final(self).status_message == old(
                    self,
                ).status_message)
            }),
    {
        let save_requested: bool = match key {
            Key::Ctrl(c) => {
                if c == 'q' {
                    if self.quit_times > 1 && self.document.is_dirty() {
                        let remaining = self.quit_times - 1;
                        let warn = quit_warning(remaining);
                        self.quit_times = remaining;
                        self.status_message = StatusMessage { text: warn };
                        return false;
                    }
                    self.should_quit = true;
                    false
                } else {
                    c == 's'
                }
            },
            Key::Char(c) => {
                let pos = self.position;
                self.document.insert(&pos, c);
                proof {
                    lemma_insert_keeps_cursor(
                        old(self).document@,
                        pos.x as int,
                        pos.y as int,
                        c,
                    );
                }
                self.move_cursor(Key::Right);
                false
            },
            Key::Delete => {
                let pos = self.position;
                self.document.delete(&pos);
                proof {
                    lemma_delete_keeps_cursor(old(self).document@, pos.x as int, pos.y as int);
                }
                false
            },
            Key::Backspace => {
                if self.position.x > 0 || self.position.y > 0 {
                    self.move_cursor(Key::Left);
                    let pos = self.position;
                    proof {
                        if old(self).position.y == 0 {
                            assert(old(self).document@.len() > 0);
                        }
                        assert((pos.y as int) < self.document@.len());
                    }
                    self.document.delete(&pos);
                    proof {
                        lemma_delete_keeps_cursor(
                            old(self).document@,
                            pos.x as int,
                            pos.y as int,
                        );
                    }
                }
                false
            },
            Key::Up | Key::Down | Key::Left | Key::Right | Key::PageUp | Key::PageDown
                | Key::Home | Key::End => {
                self.move_cursor(key);
                false
            },
            _ => false,
        };
        self.scroll();
        if self.quit_times < QUIT_TIMES {
            self.quit_times = QUIT_TIMES;
            self.status_message = StatusMessage { text: String::new() };
        }
        save_requested
    }

    /// The status bar's text for the current state: the filename (its first
    /// 20 characters, or a placeholder), the line count, a dirty marker, and
    /// a right-aligned current-line indicator, padded apart and cut to the
    /// window width in characters.
    pub fn status_bar_text(&self) -> (s: String)
        requires
            self.wf(),
        ensures
            s@ == status_line(
                self.document.spec_filename(),
                self.document@.len() as nat,
                self.document.dirty_flag(),
                self.position.y as nat,
                self.width as nat,
            ),
    {
        let width = self.width;
        let mut left: Vec<char> = Vec::new();
        match self.document.get_filename() {
            Some(name) => {
                let cs = chars_of(name.as_str());
                let mut i: usize = 0;
                while i < cs.len() && i < 20
                    invariant
                        i <= cs@.len(),
                        i <= 20,
                        cs@ == name@,
                        left@ == cs@.subrange(0, i as int),
                    decreases cs@.len() - i,
                {
                    left.push(cs[i]);
                    proof {
                        assert(cs@.subrange(0, i + 1) =~= cs@.subrange(0, i as int).push(
                            cs@[i as int],
                        ));
                    }
                    i += 1;
                }
                proof {
                    if name@.len() <= 20 {
                        assert(name@.subrange(0, name@.len() as int) =~= name@);
                    }
                    assert(left@ == display_name(self.document.spec_filename()));
                }
            },
            None => {
                push_str_chars(&mut left, "[No Name]");
                proof {
                    assert(left@ =~= display_name(self.document.spec_filename()));
                }
            },
        }
        let line_count = self.document.len();
        push_str_chars(&mut left, " - ");
        push_usize_chars(&mut left, line_count);
        push_str_chars(&mut left, " lines");
        if self.document.is_dirty() {
            push_str_chars(&mut left, " (modified)");
        }
        proof {
            assert(left@ =~= status_left(
                self.document.spec_filename(),
                self.document@.len() as nat,
                self.document.dirty_flag(),
            ));
        }
        let mut right: Vec<char> = Vec::new();
        push_usize_chars(&mut right, self.position.y + 1);
        push_str_chars(&mut right, "/");
        push_usize_chars(&mut right, line_count);
        proof {
            assert(right@ =~= status_right(
                self.position.y as nat,
                self.document@.len() as nat,
            ));
        }
        let llen = left.len();
        let rlen = right.len();
        if llen <= usize::MAX - rlen && llen + rlen < width {
            push_spaces(&mut left, width - llen - rlen);
        }
        push_all_chars(&mut left, &right);
        left.truncate(width);
        let s = string_from_chars(&left);
        proof {
            assert(s@ =~= status_line(
                self.document.spec_filename(),
                self.document@.len() as nat,
                self.document.dirty_flag(),
                self.position.y as nat,
                self.width as nat,
            ));
        }
        s
    }

    /// The first half of the save workflow: decides whether a save can go
    /// ahead. `prompted` is the filename the user typed when the document
    /// had none (`None` when the prompt was cancelled). A document that
    /// already has a filename proceeds untouched; one that got a name takes
    /// it; a cancelled prompt aborts with a status message.
    pub fn prepare_save(&mut self, prompted: Option<String>) -> (proceed: bool)
        requires
            old(self).wf(),
        ensures
            final(self).wf(),
            old(self).document.spec_filename() is Some ==> proceed && *final(self) == *old(self),
            (old(self).document.spec_filename() is None && prompted is Some) ==> ({
                &&& proceed
                &&& final(self).document.spec_filename() == prompted
                &&& final(self).document@ == old(self).document@
                &&& final(self).document.dirty_flag() == old(self).document.dirty_flag()
                &&& final(self).position == old(self).position
                &&& final(self).offset == old(self).offset
                &&& final(self).status_message == old(self).status_message
            }),
            (old(self).document.spec_filename() is None && prompted is None) ==> ({
                &&& !proceed
                &&& final(self).document == old(self).document
                &&& final(self).position == old(self).position
                &&& final(self).offset == old(self).offset
                &&& final(self).status_message.text@ == "Save aborted"@
            }),
    {
        if self.document.has_filename() {
            true
        } else {
            match prompted {
                Some(name) => {
                    self.document.set_filename(name);
                    true
                },
                None => {
                    self.status_message = StatusMessage { text: "Save aborted".to_owned() };
                    false
                },
            }
        }
    }

    /// The second half of the save workflow: records the outcome of the file
    /// write. Success clears the dirty flag; failure leaves it, so the
    /// unsaved edits are still protected by the quit confirmation. Either
    /// way a status message reports what happened.
    pub fn finish_save(&mut self, ok: bool)
        requires
            old(self).wf(),
        ensures
            final(self).wf(),
            final(self).document@ == old(self).document@,
            final(self).document.spec_filename() == old(self).document.spec_filename(),
            final(self).position == old(self).position,
            final(self).offset == old(self).offset,
            ok ==> !final(self).document.dirty_flag() && final(self).status_message.text@
                == "File saved successfully"@,
            !ok ==> final(self).document.dirty_flag() == old(self).document.dirty_flag()
                && final(self).status_message.text@ == "Error saving file"@,
    {
        if ok {
            self.document.mark_saved();
            self.status_message = StatusMessage { text: "File saved successfully".to_owned() };
        } else {
            self.status_message = StatusMessage { text: "Error saving file".to_owned() };
        }
    }
}

/// `n` spaces.
pub open spec fn spaces(n: nat) -> Seq<char>
    decreases n,
{
    if n == 0 {
        Seq::<char>::empty()
    } else {
        spaces((n - 1) as nat).push(' ')
    }
}

/// The decimal representation of `n`, most significant digit first.
pub open spec fn dec_rep(n: nat) -> Seq<char>
    decreases n,
{
    if n < 10 {
        seq![digit(n)]
    } else {
        dec_rep(n / 10).push(digit(n % 10))
    }
}

fn push_spaces(v: &mut Vec<char>, n: usize)
    ensures
        final(v)@ == old(v)@ + spaces(n as nat),
{
    let mut i: usize = 0;
    proof {
        assert(v@ =~= old(v)@ + spaces(0));
    }
    while i < n
        invariant
            i <= n,
            v@ == old(v)@ + spaces(i as nat),
        decreases n - i,
    {
        v.push(' ');
        proof {
            assert(v@ =~= old(v)@ + spaces((i + 1) as nat));
        }
        i += 1;
    }
}

fn push_str_chars(v: &mut Vec<char>, s: &str)
    ensures
        final(v)@ == old(v)@ + s@,
{
    let cs = chars_of(s);
    let mut i: usize = 0;
    while i < cs.len()
        invariant
            i <= cs@.len(),
            cs@ == s@,
            v@ == old(v)@ + s@.subrange(0, i as int),
        decreases cs@.len() - i,
    {
        v.push(cs[i]);
        proof {
            assert(s@.subrange(0, i + 1) =~= s@.subrange(0, i as int).push(s@[i as int]));
            assert(v@ =~= old(v)@ + s@.subrange(0, i + 1));
        }
        i += 1;
    }
    proof {
        assert(s@.subrange(0, s@.len() as int) =~= s@);
    }
}

fn push_all_chars(v: &mut Vec<char>, other: &Vec<char>)
    ensures
        final(v)@ == old(v)@ + other@,
{
    let mut i: usize = 0;
    while i < other.len()
        invariant
            i <= other@.len(),
            v@ == old(v)@ + other@.subrange(0, i as int),
        decreases other@.len() - i,
    {
        v.push(other[i]);
        proof {
            assert(other@.subrange(0, i + 1) =~= other@.subrange(0, i as int).push(
                other@[i as int],
            ));
            assert(v@ =~= old(v)@ + other@.subrange(0, i + 1));
        }
        i += 1;
    }
    proof {
        assert(other@.subrange(0, other@.len() as int) =~= other@);
    }
}

fn push_usize_chars(v: &mut Vec<char>, n: usize)
    ensures
        final(v)@ == old(v)@ + dec_rep(n as nat),
    decreases n,
{
    if n < 10 {
        v.push(digit_char(n as u8));
        proof {
            assert(v@ =~= old(v)@ + dec_rep(n as nat));
        }
    } else {
        push_usize_chars(v, n / 10);
        v.push(digit_char((n % 10) as u8));
        proof {
            assert(v@ =~= old(v)@ + dec_rep(n as nat));
        }
    }
}

/// The filename as the status bar shows it: its first 20 characters, or a
/// placeholder when the document has none.
pub open spec fn display_name(filename: Option<String>) -> Seq<char> {
    match filename {
        Option::Some(n) => if n@.len() <= 20 {
            n@
        } else {
            n@.subrange(0, 20)
        },
        Option::None => "[No Name]"@,
    }
}

/// The left half of the status bar: name, line count, dirty indicator.
pub open spec fn status_left(filename: Option<String>, line_count: nat, dirty: bool) -> Seq<
    char,
> {
    display_name(filename) + " - "@ + dec_rep(line_count) + " lines"@ + (if dirty {
        " (modified)"@
    } else {
        Seq::<char>::empty()
    })
}

/// The right half of the status bar: current line over line count.
pub open spec fn status_right(y: nat, line_count: nat) -> Seq<char> {
    dec_rep(y + 1) + "/"@ + dec_rep(line_count)
}

/// The whole status bar line: the two halves, padded apart with spaces when
/// the width allows, and cut to the width in characters.
pub open spec fn status_line(
    filename: Option<String>,
    line_count: nat,
    dirty: bool,
    y: nat,
    width: nat,
) -> Seq<char> {
    let left = status_left(filename, line_count, dirty);
    let right = status_right(y, line_count);
    let full = if left.len() + right.len() < width {
        left + spaces((width - left.len() - right.len()) as nat) + right
    } else {
        left + right
    };
    if full.len() <= width {
        full
    } else {
        full.subrange(0, width as int)
    }
}

/// The one-time welcome banner row: a tilde, then the banner text roughly
/// centred in the window, cut to the width in characters.
pub open spec fn welcome_line(width: nat) -> Seq<char> {
    let banner = "Tedit -- a tiny terminal text editor"@;
    let padding = sat_sub(width as int, banner.len() as int) / 2;
    let pad = sat_sub(padding, 1);
    let full = "~"@ + spaces(pad as nat) + banner;
    if full.len() <= width {
        full
    } else {
        full.subrange(0, width as int)
    }
}

/// Builds the welcome banner row for a window `width` cells wide.
pub fn welcome_row(width: usize) -> (s: String)
    ensures
        s@ == welcome_line(width as nat),
{
    let mut v: Vec<char> = Vec::new();
    push_str_chars(&mut v, "~");
    let banner = chars_of("Tedit -- a tiny terminal text editor");
    let padding = sat_sub_usize(width, banner.len()) / 2;
    let pad = sat_sub_usize(padding, 1);
    push_spaces(&mut v, pad);
    push_all_chars(&mut v, &banner);
    proof {
        assert(v@ =~= "~"@ + spaces(pad as nat) + "Tedit -- a tiny terminal text editor"@);
    }
    v.truncate(width);
    let s = string_from_chars(&v);
    proof {
        assert(s@ =~= welcome_line(width as nat));
    }
    s
}

/// Whether a press of the quit key only decrements the confirmation counter
/// instead of quitting: the document has unsaved edits and more than one
/// confirmation is still owed.
pub open spec fn quit_pending(e: Editor, key: Key) -> bool {
    key == Key::Ctrl('q') && e.document.dirty_flag() && e.quit_times > 1
}

/// What one step of the save-as prompt did with the key it was handed.
#[derive(Clone, Copy, PartialEq, Eq, Structural)]
pub enum PromptOutcome {
    Pending,
    Confirmed,
    Cancelled,
}

/// One step of the save-as prompt's line editing: a non-control character is
/// appended, backspace removes the last character, enter confirms the text
/// as it stands, escape clears it and cancels; any other key is ignored.
pub fn prompt_step(buffer: &mut String, key: Key) -> (o: PromptOutcome)
    ensures
        match key {
            Key::Backspace => o is Pending && final(buffer)@ == (if old(buffer)@.len() > 0 {
                old(buffer)@.drop_last()
            } else {
                old(buffer)@
            }),
            Key::Char(c) => if c == '\n' {
                o is Confirmed && final(buffer)@ == old(buffer)@
            } else if is_control_char(c) {
                o is Pending && final(buffer)@ == old(buffer)@
            } else {
                o is Pending && final(buffer)@ == old(buffer)@.push(c)
            },
            Key::Esc => o is Cancelled && final(buffer)@ == Seq::<char>::empty(),
            _ => o is Pending && final(buffer)@ == old(buffer)@,
        },
{
    match key {
        Key::Backspace => {
            let _ = pop_char(buffer);
            PromptOutcome::Pending
        },
        Key::Char(c) => {
            if c == '\n' {
                PromptOutcome::Confirmed
            } else {
                if !is_control(c) {
                    push_char(buffer, c);
                }
                PromptOutcome::Pending
            }
        },
        Key::Esc => {
            *buffer = String::new();
            PromptOutcome::Cancelled
        },
        _ => PromptOutcome::Pending,
    }
}

/// What a finished prompt hands back: the accumulated text, or nothing when
/// it is empty (a cancelled prompt always ends empty).
pub fn prompt_result(buffer: String) -> (r: Option<String>)
    ensures
        buffer@.len() == 0 ==> r is None,
        buffer@.len() > 0 ==> r == Some(buffer),
{
    if buffer.as_str().is_empty() {
        None
    } else {
        Some(buffer)
    }
}

} // verus!

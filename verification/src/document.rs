//! An ordered sequence of rows plus file identity and a dirty flag. All
//! structural edits go through `insert` and `delete`; the dirty flag becomes
//! true on any edit and is cleared only when a save is recorded. Abstractly a
//! document is a `Seq<Seq<Seq<char>>>`: rows of clusters of characters.

use vstd::prelude::*;

use crate::Position;
use crate::row::Row;
use crate::row::clip;
use crate::text::flat_seq;
use crate::text::grapheme_clusters;

verus! {

/// Length of row `y`, or 0 where no such row exists.
pub open spec fn row_len_at(rows: Seq<Seq<Seq<char>>>, y: int) -> int {
    if 0 <= y < rows.len() {
        rows[y].len() as int
    } else {
        0
    }
}

/// The rows after a newline is inserted at `(x, y)`: row `y` is split at
/// column `x` (clamped) and the tail becomes a new row right after it; a `y`
/// past the last row appends one fresh empty row instead.
pub open spec fn rows_after_newline(rows: Seq<Seq<Seq<char>>>, x: int, y: int) -> Seq<
    Seq<Seq<char>>,
> {
    if y >= rows.len() {
        rows.push(Seq::<Seq<char>>::empty())
    } else {
        let cut = clip(x, rows[y].len() as int);
        rows.update(y, rows[y].subrange(0, cut)).insert(
            y + 1,
            rows[y].subrange(cut, rows[y].len() as int),
        )
    }
}

/// The rows after an ordinary character is inserted at `(x, y)`: spliced into
/// row `y` at column `x` (clamped); a `y` past the last row first gets a
/// fresh row, which then holds just that character.
pub open spec fn rows_after_char(rows: Seq<Seq<Seq<char>>>, x: int, y: int, c: char) -> Seq<
    Seq<Seq<char>>,
> {
    if y >= rows.len() {
        rows.push(seq![seq![c]])
    } else {
        rows.update(y, rows[y].insert(clip(x, rows[y].len() as int), seq![c]))
    }
}

/// The rows after `Document::insert` of `c` at `(x, y)`.
pub open spec fn doc_insert(rows: Seq<Seq<Seq<char>>>, x: int, y: int, c: char) -> Seq<
    Seq<Seq<char>>,
> {
    if c == '\n' {
        rows_after_newline(rows, x, y)
    } else {
        rows_after_char(rows, x, y, c)
    }
}

/// A cluster sequence with the cluster at `x` removed; out of range, the
/// sequence itself.
pub open spec fn row_delete(gs: Seq<Seq<char>>, x: int) -> Seq<Seq<char>> {
    if 0 <= x < gs.len() {
        gs.remove(x)
    } else {
        gs
    }
}

/// The rows after `Document::delete` at `(x, y)`: nothing past the last row;
/// a join of row `y + 1` onto row `y` when `x` sits at the end of row `y`
/// and a next row exists; otherwise a single-cluster removal in row `y`.
pub open spec fn doc_delete(rows: Seq<Seq<Seq<char>>>, x: int, y: int) -> Seq<Seq<Seq<char>>> {
    if y < 0 || y >= rows.len() {
        rows
    } else if x == rows[y].len() && y + 1 < rows.len() {
        rows.update(y, rows[y] + rows[y + 1]).remove(y + 1)
    } else {
        rows.update(y, row_delete(rows[y], x))
    }
}

/// An ordered sequence of rows, the name of the file they came from or will
/// go to (if any), and whether there are unsaved edits.
pub struct Document {
    rows: Vec<Row>,
    pub filename: Option<String>,
    dirty: bool,
}

impl View for Document {
    type V = Seq<Seq<Seq<char>>>;

    closed spec fn view(&self) -> Seq<Seq<Seq<char>>> {
        self.rows@.map_values(|r: Row| r@)
    }
}

impl Document {
    /// Every row keeps its length cache consistent.
    pub closed spec fn wf(&self) -> bool {
        forall|i: int| 0 <= i < self.rows@.len() ==> (#[trigger] self.rows@[i]).wf()
    }

    /// The dirty flag: unsaved edits exist.
    pub closed spec fn dirty_flag(&self) -> bool {
        self.dirty
    }

    /// The filename, for contracts.
    pub closed spec fn spec_filename(&self) -> Option<String> {
        self.filename
    }

    /// An empty document: zero rows, no filename, no unsaved edits.
    pub fn new() -> (d: Document)
        ensures
            d.wf(),
            d@ == Seq::<Seq<Seq<char>>>::empty(),
            !d.dirty_flag(),
            d.spec_filename() is None,
    {
        let d = Document { rows: Vec::new(), filename: None, dirty: false };
        proof {
            assert(d@ =~= Seq::<Seq<Seq<char>>>::empty());
        }
        d
    }

    /// Builds a document from the lines of a file, one row per line in file
    /// order; each row's clusters concatenate back to exactly its line, so an
    /// unedited save reproduces the lines.
    pub fn from_lines(filename: String, lines: &Vec<String>) -> (d: Document)
        ensures
            d.wf(),
            !d.dirty_flag(),
            d.spec_filename() == Some(filename),
            d@.len() == lines@.len(),
            forall|i: int| 0 <= i < lines@.len() ==> #[trigger] d@[i] == grapheme_clusters(
                lines@[i]@,
            ),
            forall|i: int| 0 <= i < lines@.len() ==> flat_seq(#[trigger] d@[i]) == lines@[i]@,
    {
        let mut rows: Vec<Row> = Vec::new();
        let mut i: usize = 0;
        while i < lines.len()
            invariant
                i <= lines@.len(),
                rows@.len() == i,
                forall|j: int| 0 <= j < i ==> (#[trigger] rows@[j]).wf(),
                forall|j: int| 0 <= j < i ==> (#[trigger] rows@[j])@ == grapheme_clusters(
                    lines@[j]@,
                ),
                forall|j: int| 0 <= j < i ==> flat_seq((#[trigger] rows@[j])@) == lines@[j]@,
            decreases lines@.len() - i,
        {
            let row = Row::from(lines[i].as_str());
            rows.push(row);
            i += 1;
        }
        let d = Document { rows, filename: Some(filename), dirty: false };
        d
    }

    /// Bounds-checked read access to one row.
    pub fn row(&self, index: usize) -> (r: Option<&Row>)
        requires
            self.wf(),
        ensures
            index < self@.len() ==> (r matches Some(row) && row@ == self@[index as int]
                && row.wf()),
            index >= self@.len() ==> r is None,
    {
        if index < self.rows.len() {
            Some(&self.rows[index])
        } else {
            None
        }
    }

    /// Row count.
    pub fn len(&self) -> (n: usize)
        ensures
            n == self@.len(),
    {
        self.rows.len()
    }

    pub fn is_empty(&self) -> (b: bool)
        ensures
            b == (self@.len() == 0),
    {
        self.rows.len() == 0
    }

    /// Whether unsaved edits exist since load or the last recorded save.
    pub fn is_dirty(&self) -> (b: bool)
        ensures
            b == self.dirty_flag(),
    {
        self.dirty
    }

    /// Inserts `c` at `at`: a newline splits the row there; any other
    /// character is spliced into the row, a fresh row being appended first
    /// when `at.y` is past the last row. Always marks the document dirty.
    pub fn insert(&mut self, at: &Position, c: char)
        requires
            old(self).wf(),
        ensures
            final(self).wf(),
            final(self)@ == doc_insert(old(self)@, at.x as int, at.y as int, c),
            final(self).dirty_flag(),
            final(self).spec_filename() == old(self).spec_filename(),
    {
        if c == '\n' {
            self.insert_newline(at);
            self.dirty = true;
            return ;
        }
        if at.y >= self.rows.len() {
            let mut row = Row::new();
            row.insert(0, c);
            proof {
                assert(row@ =~= seq![seq![c]]);
            }
            self.rows.push(row);
            proof {
                assert(self@ =~= rows_after_char(old(self)@, at.x as int, at.y as int, c));
            }
        } else {
            let mut row = self.rows.remove(at.y);
            row.insert(at.x, c);
            self.rows.insert(at.y, row);
            proof {
                assert(self.rows@ =~= old(self).rows@.update(at.y as int, row));
                assert(self@ =~= rows_after_char(old(self)@, at.x as int, at.y as int, c));
            }
        }
        self.dirty = true;
    }

    /// The newline case of `insert`: a row split at `at`.
    fn insert_newline(&mut self, at: &Position)
        requires
            old(self).wf(),
        ensures
            final(self).wf(),
            final(self)@ == rows_after_newline(old(self)@, at.x as int, at.y as int),
            final(self).dirty_flag() == old(self).dirty_flag(),
            final(self).spec_filename() == old(self).spec_filename(),
    {
        if at.y >= self.rows.len() {
            self.rows.push(Row::new());
            proof {
                assert(self@ =~= rows_after_newline(old(self)@, at.x as int, at.y as int));
            }
            return ;
        }
        let mut row = self.rows.remove(at.y);
        let tail = row.split(at.x);
        self.rows.insert(at.y, row);
        self.rows.insert(at.y + 1, tail);
        proof {
            assert(self.rows@ =~= old(self).rows@.update(at.y as int, row).insert(
                at.y + 1,
                tail,
            ));
            assert(self@ =~= rows_after_newline(old(self)@, at.x as int, at.y as int));
        }
    }

    /// Deletes at `at`: nothing past the last row; joins the next row onto
    /// row `at.y` when `at.x` sits at its end and a next row exists;
    /// otherwise removes one cluster from row `at.y`. Marks the document
    /// dirty whenever `at.y` addresses an existing row.
    pub fn delete(&mut self, at: &Position)
        requires
            old(self).wf(),
        ensures
            final(self).wf(),
            final(self)@ == doc_delete(old(self)@, at.x as int, at.y as int),
            final(self).dirty_flag() == (old(self).dirty_flag() || (at.y as int) < old(
                self,
            )@.len()),
            final(self).spec_filename() == old(self).spec_filename(),
    {
        let len = self.rows.len();
        if at.y >= len {
            return ;
        }
        self.dirty = true;
        let row_len = self.rows[at.y].len();
        if at.x == row_len && at.y + 1 < len {
            let next = self.rows.remove(at.y + 1);
            let mut row = self.rows.remove(at.y);
            row.append(&next);
            self.rows.insert(at.y, row);
            proof {
                assert(self.rows@ =~= old(self).rows@.update(at.y as int, row).remove(at.y + 1));
                assert(self@ =~= doc_delete(old(self)@, at.x as int, at.y as int));
            }
        } else {
            let mut row = self.rows.remove(at.y);
            row.delete(at.x);
            self.rows.insert(at.y, row);
            proof {
                assert(self.rows@ =~= old(self).rows@.update(at.y as int, row));
                assert(self@ =~= doc_delete(old(self)@, at.x as int, at.y as int));
            }
        }
    }

    /// The document's lines as they would be written to disk, one string per
    /// row, in order: each row's clusters concatenated, unaltered.
    pub fn lines(&self) -> (out: Vec<String>)
        requires
            self.wf(),
        ensures
            out@.len() == self@.len(),
            forall|i: int| 0 <= i < self@.len() ==> (#[trigger] out@[i])@ == flat_seq(self@[i]),
    {
        let mut out: Vec<String> = Vec::new();
        let mut i: usize = 0;
        while i < self.rows.len()
            invariant
                i <= self.rows@.len(),
                self.wf(),
                out@.len() == i,
                forall|j: int| 0 <= j < i ==> (#[trigger] out@[j])@ == flat_seq(self@[j]),
            decreases self.rows@.len() - i,
        {
            let line = self.rows[i].contents();
            out.push(line);
            i += 1;
        }
        out
    }

    /// A copy of the filename, related to `spec_filename` for callers'
    /// proofs.
    pub fn get_filename(&self) -> (r: Option<String>)
        ensures
            r == self.spec_filename(),
    {
        match &self.filename {
            Some(n) => Some(n.clone()),
            None => None,
        }
    }

    /// Whether the document has a filename to save to.
    pub fn has_filename(&self) -> (b: bool)
        ensures
            b == (self.spec_filename() is Some),
    {
        self.filename.is_some()
    }

    /// Gives the document a filename; rows and dirty flag are untouched.
    pub fn set_filename(&mut self, name: String)
        requires
            old(self).wf(),
        ensures
            final(self).wf(),
            final(self)@ == old(self)@,
            final(self).dirty_flag() == old(self).dirty_flag(),
            final(self).spec_filename() == Some(name),
    {
        self.filename = Some(name);
    }

    /// Records that a save of the current rows succeeded: clears the dirty
    /// flag, changes nothing else.
    pub fn mark_saved(&mut self)
        requires
            old(self).wf(),
        ensures
            final(self).wf(),
            final(self)@ == old(self)@,
            !final(self).dirty_flag(),
            final(self).spec_filename() == old(self).spec_filename(),
    {
        self.dirty = false;
    }
}

/// Inserting a newline anywhere in a non-empty document adds exactly one
/// row, and a backspace at the start of the newly created row (which deletes
/// at the end of the row above it, joining the two) restores the document
/// exactly: row split and row join are inverses.
pub proof fn lemma_newline_then_join(rows: Seq<Seq<Seq<char>>>, x: int, y: int)
    requires
        rows.len() > 0,
        0 <= x,
        0 <= y,
    ensures
        rows_after_newline(rows, x, y).len() == rows.len() + 1,
        ({
            let split = rows_after_newline(rows, x, y);
            let jy = if y < rows.len() {
                y
            } else {
                rows.len() - 1
            };
            doc_delete(split, split[jy].len() as int, jy) == rows
        }),
{
    let split = rows_after_newline(rows, x, y);
    if y < rows.len() {
        let cut = clip(x, rows[y].len() as int);
        assert(split[y] == rows[y].subrange(0, cut));
        assert(split[y + 1] == rows[y].subrange(cut, rows[y].len() as int));
        assert(split[y] + split[y + 1] =~= rows[y]);
        assert(doc_delete(split, split[y].len() as int, y) =~= rows);
    } else {
        let jy = rows.len() - 1;
        assert(split[jy] == rows[jy]);
        assert(split[jy + 1] =~= Seq::<Seq<char>>::empty());
        assert(split[jy] + split[jy + 1] =~= rows[jy]);
        assert(doc_delete(split, split[jy].len() as int, jy) =~= rows);
    }
}

} // verus!

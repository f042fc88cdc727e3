//! Core of a small terminal text editor: a grapheme-indexed line buffer
//! (`Row`), an ordered sequence of rows with file identity and a dirty flag
//! (`Document`), and the cursor, viewport and key-dispatch rules (`Editor`).
//! Terminal and file I/O live outside this crate; the library works on plain
//! values handed in and out.

pub mod document;
pub mod editor;
pub mod row;
pub mod text;

use vstd::prelude::*;

verus! {

/// A column/row pair in buffer coordinates: `x` counts grapheme clusters
/// within a row, `y` counts rows.
#[derive(Clone, Copy)]
pub struct Position {
    pub x: usize,
    pub y: usize,
}

impl Default for Position {
    fn default() -> (p: Position)
        ensures
            p.x == 0,
            p.y == 0,
    {
        Position { x: 0, y: 0 }
    }
}

} // verus!

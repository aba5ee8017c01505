//! A row and a column.

use vstd::prelude::*;
use crate::lines::Place;

verus! {

/// A row and a column, both counted from zero. On a line of text the column
/// may equal the line's length: the position just behind its last character.
#[derive(Debug, Clone, Copy, PartialEq, Eq, Structural)]
pub struct Position {
    pub row: usize,
    pub col: usize,
}

impl View for Position {
    type V = Place;

    open spec fn view(&self) -> Place {
        Place { row: self.row as int, col: self.col as int }
    }
}

impl Position {
    pub fn new(row: usize, col: usize) -> (p: Self)
        ensures
            p.row == row,
            p.col == col,
    {
        Self { row, col }
    }
}

} // verus!

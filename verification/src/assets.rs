//! Dimensions of the play field and the cell model.

use vstd::prelude::*;

verus! {

/// Width of the play field in cells, the two border columns included.
pub const FIELD_WIDTH: i32 = 12;

/// Height of the play field in cells, the bottom border row included.
pub const FIELD_HEIGHT: i32 = 18;

/// Number of cells in the row-major field buffer (`FIELD_WIDTH * FIELD_HEIGHT`).
pub const FIELD_SIZE: usize = 216;

/// Minimum terminal width the renderer assumes.
pub const WINDOW_WIDTH: i32 = 80;

/// Minimum terminal height the renderer assumes.
pub const WINDOW_HEIGHT: i32 = 30;

/// One cell of the play field.
#[derive(Clone, Copy, Debug, PartialEq, Eq, Structural)]
pub enum Cell {
    /// A free cell.
    Empty,
    /// A permanent boundary cell: the outer columns and the bottom row.
    Border,
    /// A cell of a just-completed row, held until the row collapses.
    Cleared,
    /// A locked cell of the piece with the given catalog index (0 to 6).
    Piece(u8),
}

/// The character a cell is drawn with.
pub open spec fn spec_cell_char(c: Cell) -> char {
    match c {
        Cell::Empty => ' ',
        Cell::Border => '#',
        Cell::Cleared => '=',
        Cell::Piece(p) => {
            if p == 0 {
                'A'
            } else if p == 1 {
                'B'
            } else if p == 2 {
                'C'
            } else if p == 3 {
                'D'
            } else if p == 4 {
                'E'
            } else if p == 5 {
                'F'
            } else if p == 6 {
                'G'
            } else {
                ' '
            }
        },
    }
}

/// Maps a cell to the character it is drawn with: blank for an empty cell,
/// `#` for a border cell, `=` for a row in transition, and one letter per
/// piece identity.
pub fn cell_char(c: Cell) -> (ch: char)
    ensures
        ch == spec_cell_char(c),
{
    match c {
        Cell::Empty => ' ',
        Cell::Border => '#',
        Cell::Cleared => '=',
        Cell::Piece(p) => {
            if p == 0 {
                'A'
            } else if p == 1 {
                'B'
            } else if p == 2 {
                'C'
            } else if p == 3 {
                'D'
            } else if p == 4 {
                'E'
            } else if p == 5 {
                'F'
            } else if p == 6 {
                'G'
            } else {
                ' '
            }
        },
    }
}

} // verus!

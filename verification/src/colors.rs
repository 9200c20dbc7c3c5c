//! Color arithmetic for the terminal renderer: pair numbering, the curses
//! color table, and the bold bit.

use vstd::prelude::*;

use crate::assets::Cell;

verus! {

pub const COLOR_BLACK: i16 = 0;

pub const COLOR_RED: i16 = 1;

pub const COLOR_GREEN: i16 = 2;

pub const COLOR_YELLOW: i16 = 3;

pub const COLOR_BLUE: i16 = 4;

pub const COLOR_MAGENTA: i16 = 5;

pub const COLOR_CYAN: i16 = 6;

pub const COLOR_WHITE: i16 = 7;

/// Packs a foreground and a background color into one color-pair number:
/// a high marker bit, three background bits, and three foreground bits.
pub fn color_num(fg: i16, bg: i16) -> (pair: i16)
    ensures
        pair == (128 | ((7 & bg) << 4) | (7 & fg)),
{
    let b: i16 = 128;
    let bbb: i16 = (7 & bg) << 4;
    let ffff: i16 = 7 & fg;
    b | bbb | ffff
}

/// The curses color constant for the low three bits of `fg`, read as an RGB
/// triple.
pub open spec fn spec_curs_color(fg: i16) -> i16 {
    let rgb = 7 & fg;
    if rgb == 0 {
        COLOR_BLACK
    } else if rgb == 1 {
        COLOR_BLUE
    } else if rgb == 2 {
        COLOR_GREEN
    } else if rgb == 3 {
        COLOR_CYAN
    } else if rgb == 4 {
        COLOR_RED
    } else if rgb == 5 {
        COLOR_MAGENTA
    } else if rgb == 6 {
        COLOR_YELLOW
    } else {
        COLOR_WHITE
    }
}

/// Maps the low three bits of `fg`, read as an RGB triple, to the matching
/// curses color constant.
pub fn curs_color(fg: i16) -> (color: i16)
    ensures
        color == spec_curs_color(fg),
{
    let rgb: i16 = 7 & fg;
    if rgb == 0 {
        COLOR_BLACK
    } else if rgb == 1 {
        COLOR_BLUE
    } else if rgb == 2 {
        COLOR_GREEN
    } else if rgb == 3 {
        COLOR_CYAN
    } else if rgb == 4 {
        COLOR_RED
    } else if rgb == 5 {
        COLOR_MAGENTA
    } else if rgb == 6 {
        COLOR_YELLOW
    } else {
        COLOR_WHITE
    }
}

/// Whether the intensity bit of a color number is set, which the renderer
/// turns into a bold attribute.
pub fn is_bold(fg: i16) -> (bold: bool)
    ensures
        bold == ((8 & fg) != 0),
{
    let i: i16 = 8;
    (i & fg) != 0
}

/// The color pair a cell is drawn with: one pair per piece identity, pair 0
/// for every other marker.
pub open spec fn spec_piece_color_id(c: Cell) -> i16 {
    match c {
        Cell::Piece(p) => if p < 7 {
            (p + 1) as i16
        } else {
            0
        },
        _ => 0,
    }
}

/// Maps a cell to its color identifier: piece markers get the pairs 1 to 7,
/// every other marker gets 0.
pub fn get_piece_color_id(cell: Cell) -> (color_id: i16)
    ensures
        color_id == spec_piece_color_id(cell),
{
    match cell {
        Cell::Piece(p) => {
            if p < 7 {
                (p as i16) + 1
            } else {
                0
            }
        },
        _ => 0,
    }
}

} // verus!

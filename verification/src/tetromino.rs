//! The piece catalog, the rotation transform and the collision test.

use vstd::prelude::*;

use crate::assets::Cell;
use crate::assets::FIELD_HEIGHT;
use crate::assets::FIELD_WIDTH;

verus! {

/// Width of a piece template.
pub const TETROMINO_WIDTH: i32 = 4;

/// Height of a piece template.
pub const TETROMINO_HEIGHT: i32 = 4;

/// Index into the unrotated 4x4 template that corresponds to local cell
/// `(x, y)` after rotating by `r` quarter turns clockwise.  The four
/// closed-form mappings stay inside `[0, 15]` for `x, y` in `[0, 3]`.
pub open spec fn rot_index(x: int, y: int, r: int) -> int {
    if r % 4 == 0 {
        4 * y + x
    } else if r % 4 == 1 {
        12 + y - 4 * x
    } else if r % 4 == 2 {
        15 - 4 * y - x
    } else {
        3 - y + 4 * x
    }
}

/// Whether cell `idx` of the unrotated 4x4 template of piece `p` is occupied.
/// The seven templates are fixed; indices run row-major over the template.
pub open spec fn piece_cell(p: int, idx: int) -> bool {
    if p == 0 {
        idx == 2 || idx == 6 || idx == 10 || idx == 14
    } else if p == 1 || p == 2 {
        idx == 2 || idx == 5 || idx == 6 || idx == 9
    } else if p == 3 {
        idx == 1 || idx == 5 || idx == 6 || idx == 10
    } else if p == 4 {
        idx == 2 || idx == 5 || idx == 6 || idx == 10
    } else if p == 5 {
        idx == 5 || idx == 6 || idx == 10 || idx == 14
    } else {
        idx == 5 || idx == 6 || idx == 9 || idx == 13
    }
}

/// Computes the template index of local cell `(p_x, p_y)` under `r` quarter
/// turns; the result always lies inside the 16-cell template.
pub fn rotate(p_x: i32, p_y: i32, r: i32) -> (idx: usize)
    requires
        0 <= p_x < 4,
        0 <= p_y < 4,
        0 <= r,
    ensures
        idx == rot_index(p_x as int, p_y as int, r as int),
        idx < 16,
{
    let m: i32 = r % 4;
    let v: i32 = if m == 0 {
        4 * p_y + p_x
    } else if m == 1 {
        12 + p_y - 4 * p_x
    } else if m == 2 {
        15 - 4 * p_y - p_x
    } else {
        3 - p_y + 4 * p_x
    };
    v as usize
}

/// Whether cell `idx` of the unrotated template of `piece_id` is occupied.
pub fn tetromino_occupied(piece_id: i32, idx: usize) -> (occ: bool)
    requires
        0 <= piece_id < 7,
        idx < 16,
    ensures
        occ == piece_cell(piece_id as int, idx as int),
{
    if piece_id == 0 {
        idx == 2 || idx == 6 || idx == 10 || idx == 14
    } else if piece_id == 1 || piece_id == 2 {
        idx == 2 || idx == 5 || idx == 6 || idx == 9
    } else if piece_id == 3 {
        idx == 1 || idx == 5 || idx == 6 || idx == 10
    } else if piece_id == 4 {
        idx == 2 || idx == 5 || idx == 6 || idx == 10
    } else if piece_id == 5 {
        idx == 5 || idx == 6 || idx == 10 || idx == 14
    } else {
        idx == 5 || idx == 6 || idx == 9 || idx == 13
    }
}

/// Whether `(fx, fy)` lies inside the field, borders included.
pub open spec fn cell_in_bounds(fx: int, fy: int) -> bool {
    0 <= fx < 12 && 0 <= fy < 18
}

/// Local template cell `(i, j)` poses no obstacle for the piece at origin
/// `(px, py)`: either the rotated template leaves it empty, or it projects
/// outside the field, or the field cell under it is blank.
pub open spec fn cell_ok(
    f: Seq<Cell>,
    piece: int,
    r: int,
    px: int,
    py: int,
    i: int,
    j: int,
) -> bool {
    piece_cell(piece, rot_index(i, j, r)) && cell_in_bounds(px + i, py + j) ==> f[(py + j) * 12 + (
    px + i)] == Cell::Empty
}

/// The fit test: the piece at origin `(px, py)` under rotation `r` collides
/// with nothing.  Occupied template cells that project outside the field are
/// ignored; every occupied in-bounds cell must sit on a blank field cell.
pub open spec fn fits_spec(f: Seq<Cell>, piece: int, r: int, px: int, py: int) -> bool {
    forall|i: int, j: int| 0 <= i < 4 && 0 <= j < 4 ==> cell_ok(f, piece, r, px, py, i, j)
}

/// Collision test for a piece at origin `(p_x, p_y)` under rotation
/// `rotation_id`, answering exactly the fit test above.
pub fn does_piece_fit(
    field: &Vec<Cell>,
    piece_id: i32,
    rotation_id: i32,
    p_x: i32,
    p_y: i32,
) -> (fits: bool)
    requires
        field@.len() == 216,
        0 <= piece_id < 7,
        0 <= rotation_id,
        p_x <= i32::MAX - 3,
        p_y <= i32::MAX - 3,
    ensures
        fits == fits_spec(field@, piece_id as int, rotation_id as int, p_x as int, p_y as int),
{
    let mut i: i32 = 0;
    while i < TETROMINO_WIDTH
        invariant
            0 <= i <= 4,
            field@.len() == 216,
            0 <= piece_id < 7,
            0 <= rotation_id,
            p_x <= i32::MAX - 3,
            p_y <= i32::MAX - 3,
            forall|a: int, b: int|
                0 <= a < i && 0 <= b < 4 ==> cell_ok(
                    field@,
                    piece_id as int,
                    rotation_id as int,
                    p_x as int,
                    p_y as int,
                    a,
                    b,
                ),
        decreases 4 - i,
    {
        let mut j: i32 = 0;
        while j < TETROMINO_HEIGHT
            invariant
                0 <= i < 4,
                0 <= j <= 4,
                field@.len() == 216,
                0 <= piece_id < 7,
                0 <= rotation_id,
                p_x <= i32::MAX - 3,
                p_y <= i32::MAX - 3,
                forall|a: int, b: int|
                    0 <= a < i && 0 <= b < 4 ==> cell_ok(
                        field@,
                        piece_id as int,
                        rotation_id as int,
                        p_x as int,
                        p_y as int,
                        a,
                        b,
                    ),
                forall|b: int|
                    0 <= b < j ==> cell_ok(
                        field@,
                        piece_id as int,
                        rotation_id as int,
                        p_x as int,
                        p_y as int,
                        i as int,
                        b,
                    ),
            decreases 4 - j,
        {
            let p_idx: usize = rotate(i, j, rotation_id);
            let f_x: i32 = p_x + i;
            let f_y: i32 = p_y + j;
            if f_x >= 0 && f_x < FIELD_WIDTH && f_y >= 0 && f_y < FIELD_HEIGHT {
                let f_idx: usize = (f_y * FIELD_WIDTH + f_x) as usize;
                if tetromino_occupied(piece_id, p_idx) && field[f_idx] != Cell::Empty {
                    proof {
                        assert(!cell_ok(
                            field@,
                            piece_id as int,
                            rotation_id as int,
                            p_x as int,
                            p_y as int,
                            i as int,
                            j as int,
                        ));
                    }
                    return false;
                }
            }
            j = j + 1;
        }
        i = i + 1;
    }
    true
}

/// Law: for every rotation, the transform maps the 16 local cells one-to-one
/// onto the template indices 0 to 15 — distinct cells never share an index.
pub proof fn lemma_rotation_bijective(r: int, x1: int, y1: int, x2: int, y2: int)
    requires
        0 <= x1 < 4,
        0 <= y1 < 4,
        0 <= x2 < 4,
        0 <= y2 < 4,
    ensures
        0 <= rot_index(x1, y1, r) < 16,
        rot_index(x1, y1, r) == rot_index(x2, y2, r) ==> (x1 == x2 && y1 == y2),
{
}

/// Law: one occupied in-bounds template cell over a non-blank field cell is
/// enough to defeat the fit test.
pub proof fn lemma_overlap_defeats_fit(
    f: Seq<Cell>,
    piece: int,
    r: int,
    px: int,
    py: int,
    i: int,
    j: int,
)
    requires
        0 <= i < 4,
        0 <= j < 4,
        piece_cell(piece, rot_index(i, j, r)),
        cell_in_bounds(px + i, py + j),
        f[(py + j) * 12 + (px + i)] != Cell::Empty,
    ensures
        !fits_spec(f, piece, r, px, py),
{
    assert(!cell_ok(f, piece, r, px, py, i, j));
}

} // verus!

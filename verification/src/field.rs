//! The play field: building it, locking pieces into it, detecting completed
//! rows and collapsing them.

use vstd::prelude::*;

use vstd::pervasive::VecAdditionalExecFns;

use vstd::arithmetic::div_mod::lemma_fundamental_div_mod;
use vstd::arithmetic::div_mod::lemma_fundamental_div_mod_converse;
use vstd::arithmetic::div_mod::lemma_mod_bound;

use crate::assets::Cell;
use crate::assets::FIELD_HEIGHT;
use crate::assets::FIELD_WIDTH;
use crate::tetromino::cell_in_bounds;
use crate::tetromino::cell_ok;
use crate::tetromino::fits_spec;
use crate::tetromino::piece_cell;
use crate::tetromino::rot_index;
use crate::tetromino::rotate;
use crate::tetromino::tetromino_occupied;
use crate::tetromino::TETROMINO_HEIGHT;

verus! {

broadcast use vstd::arithmetic::div_mod::lemma_mod_bound, vstd::arithmetic::div_mod::lemma_fundamental_div_mod;

/// Row-major indexing: the cell at column `x` of row `y` sits at `y * 12 + x`,
/// and that index determines the coordinates again.
pub proof fn lemma_grid_coords(x: int, y: int)
    requires
        0 <= x < 12,
        0 <= y < 18,
    ensures
        0 <= y * 12 + x < 216,
        (y * 12 + x) % 12 == x,
        (y * 12 + x) / 12 == y,
{
    lemma_fundamental_div_mod_converse(y * 12 + x, 12, y, x);
}

/// The converse direction: a buffer index decomposes into in-range column
/// `idx % 12` and row `idx / 12`.
pub proof fn lemma_grid_index(idx: int)
    requires
        0 <= idx < 216,
    ensures
        0 <= idx % 12 < 12,
        0 <= idx / 12 < 18,
        (idx / 12) * 12 + idx % 12 == idx,
{
    lemma_fundamental_div_mod(idx, 12);
    lemma_mod_bound(idx, 12);
}

/// The cell a freshly built field holds at column `x`, row `y`: border marks
/// on the outer columns and the bottom row, blank everywhere else.
pub open spec fn init_cell(x: int, y: int) -> Cell {
    if x == 0 || x == 11 || y == 17 {
        Cell::Border
    } else {
        Cell::Empty
    }
}

/// The freshly built field buffer.
pub open spec fn init_field_spec() -> Seq<Cell> {
    Seq::new(216, |idx: int| init_cell(idx % 12, idx / 12))
}

/// Builds the empty play field: blank interior, border marks along the
/// leftmost column, the rightmost column and the bottom row.
pub fn build_field() -> (field: Vec<Cell>)
    ensures
        field@.len() == 216,
        field@ == init_field_spec(),
        forall|x: int, y: int|
            0 <= x < 12 && 0 <= y < 18 ==> field@[y * 12 + x] == init_cell(x, y),
{
    let mut field: Vec<Cell> = Vec::new();
    let mut j: i32 = 0;
    while j < FIELD_HEIGHT
        invariant
            0 <= j <= 18,
            field@.len() == j * 12,
            forall|idx: int| 0 <= idx < j * 12 ==> field@[idx] == init_cell(idx % 12, idx / 12),
        decreases 18 - j,
    {
        field.push(Cell::Border);
        proof {
            lemma_grid_coords(0, j as int);
        }
        let mut i: i32 = 1;
        while i < FIELD_WIDTH - 1
            invariant
                0 <= j < 18,
                1 <= i <= 11,
                field@.len() == j * 12 + i,
                forall|idx: int|
                    0 <= idx < j * 12 + i ==> field@[idx] == init_cell(idx % 12, idx / 12),
            decreases 11 - i,
        {
            let c: Cell = if j == FIELD_HEIGHT - 1 {
                Cell::Border
            } else {
                Cell::Empty
            };
            field.push(c);
            proof {
                lemma_grid_coords(i as int, j as int);
            }
            i = i + 1;
        }
        field.push(Cell::Border);
        proof {
            lemma_grid_coords(11, j as int);
        }
        j = j + 1;
    }
    proof {
        assert(field@ =~= init_field_spec());
        assert forall|x: int, y: int|
            0 <= x < 12 && 0 <= y < 18 implies field@[y * 12 + x] == init_cell(x, y) by {
            lemma_grid_coords(x, y);
        }
    }
    field
}

/// Whether the piece at origin `(px, py)` under rotation `r` occupies the
/// field square `(x, y)`.
pub open spec fn piece_occupies(piece: int, r: int, px: int, py: int, x: int, y: int) -> bool {
    px <= x < px + 4 && py <= y < py + 4 && piece_cell(piece, rot_index(x - px, y - py, r))
}

/// The field after the piece's occupied in-bounds cells are written with its
/// identity marker.
pub open spec fn lock_field_spec(f: Seq<Cell>, piece: int, r: int, px: int, py: int) -> Seq<
    Cell,
> {
    Seq::new(
        216,
        |idx: int|
            if piece_occupies(piece, r, px, py, idx % 12, idx / 12) {
                Cell::Piece(piece as u8)
            } else {
                f[idx]
            },
    )
}

/// Whether the write loop over the 4x4 template has already visited local
/// cell `(a, b)` when it stands at `(i, j)`.
spec fn visited(a: int, b: int, i: int, j: int) -> bool {
    a < i || (a == i && b < j)
}

/// Locks a piece: writes its identity marker into every field cell covered by
/// an occupied template cell that lies inside the field; every other cell
/// keeps its value.
pub fn lock_piece(field: &mut Vec<Cell>, piece_id: i32, rotation_id: i32, p_x: i32, p_y: i32)
    requires
        old(field)@.len() == 216,
        0 <= piece_id < 7,
        0 <= rotation_id,
        p_x <= i32::MAX - 3,
        p_y <= i32::MAX - 3,
    ensures
        final(field)@.len() == 216,
        final(field)@ == lock_field_spec(
            old(field)@,
            piece_id as int,
            rotation_id as int,
            p_x as int,
            p_y as int,
        ),
        forall|x: int, y: int|
            0 <= x < 12 && 0 <= y < 18 ==> final(field)@[y * 12 + x] == (
            if piece_occupies(piece_id as int, rotation_id as int, p_x as int, p_y as int, x, y) {
                Cell::Piece(piece_id as u8)
            } else {
                old(field)@[y * 12 + x]
            }),
{
    let mut i: i32 = 0;
    while i < 4
        invariant
            0 <= i <= 4,
            field@.len() == 216,
            0 <= piece_id < 7,
            0 <= rotation_id,
            p_x <= i32::MAX - 3,
            p_y <= i32::MAX - 3,
            forall|idx: int|
                0 <= idx < 216 ==> field@[idx] == (
                if piece_occupies(
                    piece_id as int,
                    rotation_id as int,
                    p_x as int,
                    p_y as int,
                    idx % 12,
                    idx / 12,
                ) && visited(idx % 12 - p_x, idx / 12 - p_y, i as int, 0) {
                    Cell::Piece(piece_id as u8)
                } else {
                    old(field)@[idx]
                }),
        decreases 4 - i,
    {
        let mut j: i32 = 0;
        while j < 4
            invariant
                0 <= i < 4,
                0 <= j <= 4,
                field@.len() == 216,
                0 <= piece_id < 7,
                0 <= rotation_id,
                p_x <= i32::MAX - 3,
                p_y <= i32::MAX - 3,
                forall|idx: int|
                    0 <= idx < 216 ==> field@[idx] == (
                    if piece_occupies(
                        piece_id as int,
                        rotation_id as int,
                        p_x as int,
                        p_y as int,
                        idx % 12,
                        idx / 12,
                    ) && visited(idx % 12 - p_x, idx / 12 - p_y, i as int, j as int) {
                        Cell::Piece(piece_id as u8)
                    } else {
                        old(field)@[idx]
                    }),
            decreases 4 - j,
        {
            let p_idx: usize = rotate(i, j, rotation_id);
            if tetromino_occupied(piece_id, p_idx) {
                let f_x: i32 = p_x + i;
                let f_y: i32 = p_y + j;
                if f_x >= 0 && f_x < FIELD_WIDTH && f_y >= 0 && f_y < FIELD_HEIGHT {
                    let f_idx: usize = (f_y * FIELD_WIDTH + f_x) as usize;
                    proof {
                        lemma_grid_coords(f_x as int, f_y as int);
                    }
                    field.set(f_idx, Cell::Piece(piece_id as u8));
                }
            }
            j = j + 1;
        }
        i = i + 1;
    }
    proof {
        assert forall|idx: int| 0 <= idx < 216 implies field@[idx] == lock_field_spec(
            old(field)@,
            piece_id as int,
            rotation_id as int,
            p_x as int,
            p_y as int,
        )[idx] by {
            lemma_grid_index(idx);
        }
        assert(field@ =~= lock_field_spec(
            old(field)@,
            piece_id as int,
            rotation_id as int,
            p_x as int,
            p_y as int,
        ));
        assert forall|x: int, y: int| 0 <= x < 12 && 0 <= y < 18 implies field@[y * 12 + x] == (
        if piece_occupies(piece_id as int, rotation_id as int, p_x as int, p_y as int, x, y) {
            Cell::Piece(piece_id as u8)
        } else {
            old(field)@[y * 12 + x]
        }) by {
            lemma_grid_coords(x, y);
        }
    }
}

/// The cell at column `x` of row `y`.
pub open spec fn cell_at(f: Seq<Cell>, x: int, y: int) -> Cell {
    f[y * 12 + x]
}

/// A row counts as complete when every interior cell holds a non-blank marker.
pub open spec fn row_complete(f: Seq<Cell>, y: int) -> bool {
    forall|x: int| 1 <= x < 11 ==> cell_at(f, x, y) != Cell::Empty
}

/// Whether row `y` gets the transition marker when lines are detected from
/// piece row `py`: it lies in the piece window, above the bottom border, and
/// is complete.
pub open spec fn row_marked(f: Seq<Cell>, py: int, y: int) -> bool {
    py <= y < py + 4 && y < 17 && row_complete(f, y)
}

/// `row_marked` restricted to the first `n` rows of the window; the
/// detection loop grows `n` from 0 to 4.
spec fn row_marked_upto(f: Seq<Cell>, py: int, n: int, y: int) -> bool {
    py <= y < py + n && y < 17 && row_complete(f, y)
}

/// The field after every complete row in the window is overwritten with the
/// transition marker on its interior cells.
pub open spec fn mark_cleared_spec(f: Seq<Cell>, py: int) -> Seq<Cell> {
    Seq::new(
        216,
        |idx: int|
            if row_marked(f, py, idx / 12) && 1 <= idx % 12 < 11 {
                Cell::Cleared
            } else {
                f[idx]
            },
    )
}

/// The complete rows among the first `n` rows of the window, ascending.
pub open spec fn rows_upto(f: Seq<Cell>, py: int, n: int) -> Seq<int>
    decreases n,
{
    if n <= 0 {
        Seq::empty()
    } else if py + n - 1 < 17 && row_complete(f, py + n - 1) {
        rows_upto(f, py, n - 1).push(py + n - 1)
    } else {
        rows_upto(f, py, n - 1)
    }
}

/// The indices of the complete rows in the window `[py, py + 4)`, ascending.
pub open spec fn completed_rows(f: Seq<Cell>, py: int) -> Seq<int> {
    rows_upto(f, py, 4)
}

/// The sequence of row indices as mathematical integers.
pub open spec fn ints_of(s: Seq<i32>) -> Seq<int> {
    s.map_values(|v: i32| v as int)
}

/// The rows listed by `rows_upto` are few, in range, and strictly ascending.
pub proof fn lemma_rows_upto_bounds(f: Seq<Cell>, py: int, n: int)
    requires
        0 <= n <= 4,
    ensures
        rows_upto(f, py, n).len() <= n,
        forall|k: int|
            0 <= k < rows_upto(f, py, n).len() ==> py <= #[trigger] rows_upto(f, py, n)[k] < py + n
                && rows_upto(f, py, n)[k] < 17,
        forall|k1: int, k2: int|
            0 <= k1 < k2 < rows_upto(f, py, n).len() ==> rows_upto(f, py, n)[k1] < rows_upto(
                f,
                py,
                n,
            )[k2],
    decreases n,
{
    if n > 0 {
        lemma_rows_upto_bounds(f, py, n - 1);
    }
}

/// Scans the four field rows the locked piece may touch, marks every
/// complete one with the transition marker on its interior cells, and
/// returns the marked row indices in ascending order.
#[verifier::loop_isolation(false)]
pub fn detect_and_clear_lines(field: &mut Vec<Cell>, p_y: i32) -> (lines: Vec<i32>)
    requires
        old(field)@.len() == 216,
        0 <= p_y <= i32::MAX - 4,
    ensures
        final(field)@.len() == 216,
        final(field)@ == mark_cleared_spec(old(field)@, p_y as int),
        ints_of(lines@) == completed_rows(old(field)@, p_y as int),
        lines@.len() <= 4,
        forall|k: int| 0 <= k < lines@.len() ==> p_y <= #[trigger] lines@[k] < 17,
        forall|k1: int, k2: int| 0 <= k1 < k2 < lines@.len() ==> lines@[k1] < lines@[k2],
{
    let mut lines: Vec<i32> = Vec::new();
    let mut j: i32 = 0;
    while j < TETROMINO_HEIGHT
        invariant
            0 <= j <= 4,
            field@.len() == 216,
            forall|idx: int|
                0 <= idx < 216 ==> field@[idx] == (
                if row_marked_upto(old(field)@, p_y as int, j as int, idx / 12) && 1 <= idx % 12
                    < 11 {
                    Cell::Cleared
                } else {
                    old(field)@[idx]
                }),
            ints_of(lines@) == rows_upto(old(field)@, p_y as int, j as int),
        decreases 4 - j,
    {
        let v: i32 = p_y + j;
        if v < FIELD_HEIGHT - 1 {
            let mut line: bool = true;
            let mut x: i32 = 1;
            while x < FIELD_WIDTH - 1
                invariant
                    1 <= x <= 11,
                    line == (forall|t: int|
                        1 <= t < x ==> cell_at(old(field)@, t, v as int) != Cell::Empty),
                decreases 11 - x,
            {
                proof {
                    lemma_grid_coords(x as int, v as int);
                }
                let f_id: usize = (v * FIELD_WIDTH + x) as usize;
                let c: Cell = field[f_id];
                proof {
                    assert(f_id as int == v as int * 12 + x as int);
                    assert(!row_marked_upto(old(field)@, p_y as int, j as int, v as int));
                    assert(c == cell_at(old(field)@, x as int, v as int));
                }
                line = line && c != Cell::Empty;
                x = x + 1;
            }
            if line {
                let mut x2: i32 = 1;
                while x2 < FIELD_WIDTH - 1
                    invariant
                        1 <= x2 <= 11,
                        field@.len() == 216,
                        forall|idx: int|
                            0 <= idx < 216 ==> field@[idx] == (
                            if (row_marked_upto(old(field)@, p_y as int, j as int, idx / 12) || (idx
                                / 12 == v as int && idx % 12 < x2)) && 1 <= idx % 12 < 11 {
                                Cell::Cleared
                            } else {
                                old(field)@[idx]
                            }),
                    decreases 11 - x2,
                {
                    let f_id: usize = (v * FIELD_WIDTH + x2) as usize;
                    proof {
                        lemma_grid_coords(x2 as int, v as int);
                    }
                    field.set(f_id, Cell::Cleared);
                    x2 = x2 + 1;
                }
                lines.push(v);
                proof {
                    assert(ints_of(lines@) =~= rows_upto(old(field)@, p_y as int, j as int + 1));
                }
            }
        }
        j = j + 1;
    }
    proof {
        assert forall|idx: int| 0 <= idx < 216 implies field@[idx] == mark_cleared_spec(
            old(field)@,
            p_y as int,
        )[idx] by {
            lemma_grid_index(idx);
        }
        assert(field@ =~= mark_cleared_spec(old(field)@, p_y as int));
        lemma_rows_upto_bounds(old(field)@, p_y as int, 4);
        assert forall|k: int| 0 <= k < lines@.len() implies p_y <= #[trigger] lines@[k] < 17 by {
            assert(ints_of(lines@)[k] == lines@[k] as int);
        }
        assert forall|k1: int, k2: int| 0 <= k1 < k2 < lines@.len() implies lines@[k1]
            < lines@[k2] by {
            assert(ints_of(lines@)[k1] == lines@[k1] as int);
            assert(ints_of(lines@)[k2] == lines@[k2] as int);
        }
    }
    lines
}

/// The cell at `(x, y)` after the collapse of the single cleared row `v`:
/// interior cells of rows 1 to `v` take the value from the row above, the
/// interior of the top row becomes blank, everything else keeps its value.
pub open spec fn collapse_one_cell(f: Seq<Cell>, v: int, x: int, y: int) -> Cell {
    if 1 <= x < 11 {
        if y == 0 {
            Cell::Empty
        } else if y <= v {
            f[(y - 1) * 12 + x]
        } else {
            f[y * 12 + x]
        }
    } else {
        f[y * 12 + x]
    }
}

/// The field after the collapse of the single cleared row `v`.
pub open spec fn collapse_one_spec(f: Seq<Cell>, v: int) -> Seq<Cell> {
    Seq::new(216, |idx: int| collapse_one_cell(f, v, idx % 12, idx / 12))
}

/// Collapses one cleared row: shifts every interior cell of the rows above
/// `v` down by one row and blanks the interior of the top row.
#[verifier::loop_isolation(false)]
pub fn collapse_line(field: &mut Vec<Cell>, v: i32)
    requires
        old(field)@.len() == 216,
        0 <= v < 18,
    ensures
        final(field)@.len() == 216,
        final(field)@ == collapse_one_spec(old(field)@, v as int),
        forall|x: int, y: int|
            1 <= x < 11 && 1 <= y <= v ==> cell_at(final(field)@, x, y) == cell_at(
                old(field)@,
                x,
                y - 1,
            ),
        forall|x: int| 1 <= x < 11 ==> cell_at(final(field)@, x, 0) == Cell::Empty,
        forall|x: int, y: int|
            0 <= x < 12 && 0 <= y < 18 && (x == 0 || x == 11 || y > v) ==> cell_at(
                final(field)@,
                x,
                y,
            ) == cell_at(old(field)@, x, y),
{
    let mut i: i32 = 1;
    while i < FIELD_WIDTH - 1
        invariant
            1 <= i <= 11,
            field@.len() == 216,
            forall|idx: int|
                0 <= idx < 216 ==> field@[idx] == (
                if 1 <= idx % 12 < i {
                    collapse_one_cell(old(field)@, v as int, idx % 12, idx / 12)
                } else {
                    old(field)@[idx]
                }),
        decreases 11 - i,
    {
        let mut j: i32 = v;
        while j >= 1
            invariant
                0 <= j <= v || (v == 0 && j == 0),
                field@.len() == 216,
                forall|idx: int|
                    0 <= idx < 216 ==> field@[idx] == (
                    if idx % 12 == i as int && j < idx / 12 <= v {
                        old(field)@[idx - 12]
                    } else if 1 <= idx % 12 < i {
                        collapse_one_cell(old(field)@, v as int, idx % 12, idx / 12)
                    } else {
                        old(field)@[idx]
                    }),
            decreases j,
        {
            let idx_cur: usize = (j * FIELD_WIDTH + i) as usize;
            let idx_prv: usize = ((j - 1) * FIELD_WIDTH + i) as usize;
            proof {
                lemma_grid_coords(i as int, j as int);
                lemma_grid_coords(i as int, j as int - 1);
            }
            let c: Cell = field[idx_prv];
            field.set(idx_cur, c);
            j = j - 1;
        }
        let row0: usize = i as usize;
        proof {
            lemma_grid_coords(i as int, 0);
        }
        field.set(row0, Cell::Empty);
        i = i + 1;
    }
    proof {
        assert forall|idx: int| 0 <= idx < 216 implies field@[idx] == collapse_one_spec(
            old(field)@,
            v as int,
        )[idx] by {
            lemma_grid_index(idx);
        }
        assert(field@ =~= collapse_one_spec(old(field)@, v as int));
        assert forall|x: int, y: int| 0 <= x < 12 && 0 <= y < 18 implies field@[y * 12 + x]
            == collapse_one_cell(old(field)@, v as int, x, y) by {
            lemma_grid_coords(x, y);
        }
    }
}

/// The field after the recorded cleared rows collapse one after the other,
/// in the order they stand in the list.
pub open spec fn collapse_seq_spec(f: Seq<Cell>, vs: Seq<int>) -> Seq<Cell>
    decreases vs.len(),
{
    if vs.len() == 0 {
        f
    } else {
        collapse_seq_spec(collapse_one_spec(f, vs[0]), vs.drop_first())
    }
}

/// Collapses every recorded cleared row, first to last.
#[verifier::loop_isolation(false)]
pub fn collapse_lines(field: &mut Vec<Cell>, lines: &Vec<i32>)
    requires
        old(field)@.len() == 216,
        forall|k: int| 0 <= k < lines@.len() ==> 0 <= #[trigger] lines@[k] < 18,
    ensures
        final(field)@.len() == 216,
        final(field)@ == collapse_seq_spec(old(field)@, ints_of(lines@)),
{
    proof {
        assert(ints_of(lines@).skip(0) =~= ints_of(lines@));
    }
    let mut k: usize = 0;
    while k < lines.len()
        invariant
            0 <= k <= lines@.len(),
            field@.len() == 216,
            collapse_seq_spec(field@, ints_of(lines@).skip(k as int)) == collapse_seq_spec(
                old(field)@,
                ints_of(lines@),
            ),
        decreases lines@.len() - k,
    {
        let v: i32 = lines[k];
        collapse_line(field, v);
        proof {
            assert(ints_of(lines@).skip(k as int).drop_first() =~= ints_of(lines@).skip(
                k as int + 1,
            ));
        }
        k = k + 1;
    }
    proof {
        assert(ints_of(lines@).skip(lines@.len() as int) =~= Seq::<int>::empty());
    }
}

/// Invariant of the field boundary: the outer columns and the bottom row
/// hold border marks.
pub open spec fn border_inv(f: Seq<Cell>) -> bool {
    forall|x: int, y: int|
        0 <= x < 12 && 0 <= y < 18 && (x == 0 || x == 11 || y == 17) ==> cell_at(f, x, y)
            == Cell::Border
}

/// Every locked marker in the field names one of the seven catalog pieces.
pub open spec fn payloads_ok(f: Seq<Cell>) -> bool {
    forall|idx: int| 0 <= idx < 216 ==> (#[trigger] f[idx] matches Cell::Piece(p) ==> p < 7)
}

/// Every occupied template cell of the piece that lies inside the field lies
/// strictly inside the borders.
pub open spec fn piece_clear_of_borders(piece: int, r: int, px: int, py: int) -> bool {
    forall|i: int, j: int|
        0 <= i < 4 && 0 <= j < 4 && #[trigger] piece_cell(piece, rot_index(i, j, r))
            && cell_in_bounds(px + i, py + j) ==> 1 <= px + i <= 10 && py + j <= 16
}

/// A piece that passes the fit test on a field with intact borders cannot
/// cover a border cell: border cells are never blank.
pub proof fn lemma_fits_clear_of_borders(f: Seq<Cell>, piece: int, r: int, px: int, py: int)
    requires
        f.len() == 216,
        border_inv(f),
        fits_spec(f, piece, r, px, py),
    ensures
        piece_clear_of_borders(piece, r, px, py),
{
    assert forall|i: int, j: int|
        0 <= i < 4 && 0 <= j < 4 && #[trigger] piece_cell(piece, rot_index(i, j, r))
            && cell_in_bounds(px + i, py + j) implies 1 <= px + i <= 10 && py + j <= 16 by {
        assert(cell_ok(f, piece, r, px, py, i, j));
        if px + i == 0 || px + i == 11 || py + j == 17 {
            assert(cell_at(f, px + i, py + j) == Cell::Border);
            assert(false);
        }
    }
}

/// At the spawn origin every occupied template cell lies inside the interior
/// columns and above the bottom border, whatever the piece and rotation.
pub proof fn lemma_spawn_clear_of_borders(piece: int, r: int)
    ensures
        piece_clear_of_borders(piece, r, 6, 0),
{
}

/// Law: on the freshly built field, every piece fits at the spawn position —
/// horizontal center, top row, unrotated.
pub proof fn lemma_spawn_fits_on_empty_field(id: int)
    requires
        0 <= id < 7,
    ensures
        fits_spec(init_field_spec(), id, 0, 6, 0),
{
    assert forall|i: int, j: int| 0 <= i < 4 && 0 <= j < 4 implies cell_ok(
        init_field_spec(),
        id,
        0,
        6,
        0,
        i,
        j,
    ) by {
        if piece_cell(id, rot_index(i, j, 0)) && cell_in_bounds(6 + i, 0 + j) {
            lemma_grid_coords(6 + i, j);
            assert(init_field_spec()[(0 + j) * 12 + (6 + i)] == init_cell(6 + i, j));
        }
    }
}

/// Locking a piece that stays clear of the borders keeps the boundary
/// invariant and writes only catalog piece markers.
pub proof fn lemma_lock_preserves_invariants(f: Seq<Cell>, piece: int, r: int, px: int, py: int)
    requires
        f.len() == 216,
        border_inv(f),
        payloads_ok(f),
        0 <= piece < 7,
        piece_clear_of_borders(piece, r, px, py),
    ensures
        border_inv(lock_field_spec(f, piece, r, px, py)),
        payloads_ok(lock_field_spec(f, piece, r, px, py)),
{
    let g = lock_field_spec(f, piece, r, px, py);
    assert forall|x: int, y: int|
        0 <= x < 12 && 0 <= y < 18 && (x == 0 || x == 11 || y == 17) implies cell_at(g, x, y)
        == Cell::Border by {
        lemma_grid_coords(x, y);
        if piece_occupies(piece, r, px, py, x, y) {
            assert(piece_cell(piece, rot_index(x - px, y - py, r)));
            assert(cell_in_bounds(px + (x - px), py + (y - py)));
            assert(false);
        }
        assert(cell_at(f, x, y) == Cell::Border);
    }
    assert forall|idx: int| 0 <= idx < 216 implies (#[trigger] g[idx] matches Cell::Piece(p) ==> p
        < 7) by {
        lemma_grid_index(idx);
    }
}

/// Marking complete rows touches only interior cells above the bottom row
/// and writes no piece marker.
pub proof fn lemma_mark_preserves_invariants(f: Seq<Cell>, py: int)
    requires
        f.len() == 216,
        border_inv(f),
        payloads_ok(f),
    ensures
        border_inv(mark_cleared_spec(f, py)),
        payloads_ok(mark_cleared_spec(f, py)),
{
    let g = mark_cleared_spec(f, py);
    assert forall|x: int, y: int|
        0 <= x < 12 && 0 <= y < 18 && (x == 0 || x == 11 || y == 17) implies cell_at(g, x, y)
        == Cell::Border by {
        lemma_grid_coords(x, y);
        assert(cell_at(f, x, y) == Cell::Border);
    }
    assert forall|idx: int| 0 <= idx < 216 implies (#[trigger] g[idx] matches Cell::Piece(p) ==> p
        < 7) by {
        lemma_grid_index(idx);
    }
}

/// Collapsing a row above the bottom border keeps the boundary invariant and
/// introduces no new piece markers.
pub proof fn lemma_collapse_one_preserves_invariants(f: Seq<Cell>, v: int)
    requires
        f.len() == 216,
        border_inv(f),
        payloads_ok(f),
        0 <= v < 17,
    ensures
        collapse_one_spec(f, v).len() == 216,
        border_inv(collapse_one_spec(f, v)),
        payloads_ok(collapse_one_spec(f, v)),
{
    let g = collapse_one_spec(f, v);
    assert forall|x: int, y: int|
        0 <= x < 12 && 0 <= y < 18 && (x == 0 || x == 11 || y == 17) implies cell_at(g, x, y)
        == Cell::Border by {
        lemma_grid_coords(x, y);
        assert(cell_at(f, x, y) == Cell::Border);
    }
    assert forall|idx: int| 0 <= idx < 216 implies (#[trigger] g[idx] matches Cell::Piece(p) ==> p
        < 7) by {
        lemma_grid_index(idx);
        let x = idx % 12;
        let y = idx / 12;
        if 1 <= x < 11 && 1 <= y <= v {
            lemma_grid_coords(x, y - 1);
            assert(f[(y - 1) * 12 + x] matches Cell::Piece(p) ==> p < 7);
        }
    }
}

/// Collapsing a list of rows above the bottom border keeps the boundary
/// invariant and introduces no new piece markers.
pub proof fn lemma_collapse_seq_preserves_invariants(f: Seq<Cell>, vs: Seq<int>)
    requires
        f.len() == 216,
        border_inv(f),
        payloads_ok(f),
        forall|k: int| 0 <= k < vs.len() ==> 0 <= #[trigger] vs[k] < 17,
    ensures
        collapse_seq_spec(f, vs).len() == 216,
        border_inv(collapse_seq_spec(f, vs)),
        payloads_ok(collapse_seq_spec(f, vs)),
    decreases vs.len(),
{
    if vs.len() > 0 {
        lemma_collapse_one_preserves_invariants(f, vs[0]);
        assert forall|k: int| 0 <= k < vs.drop_first().len() implies 0 <= #[trigger] vs.drop_first()[k]
            < 17 by {
            assert(vs.drop_first()[k] == vs[k + 1]);
        }
        lemma_collapse_seq_preserves_invariants(collapse_one_spec(f, vs[0]), vs.drop_first());
    }
}

} // verus!

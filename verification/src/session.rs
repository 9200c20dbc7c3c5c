//! The per-tick session state machine: input application, gravity, locking,
//! scoring, difficulty and game-over detection.

use vstd::prelude::*;

use crate::assets::Cell;
use crate::assets::FIELD_WIDTH;
use crate::field::border_inv;
use crate::field::build_field;
use crate::field::collapse_lines;
use crate::field::collapse_seq_spec;
use crate::field::completed_rows;
use crate::field::detect_and_clear_lines;
use crate::field::init_field_spec;
use crate::field::ints_of;
use crate::field::lemma_collapse_seq_preserves_invariants;
use crate::field::lemma_fits_clear_of_borders;
use crate::field::lemma_lock_preserves_invariants;
use crate::field::lemma_mark_preserves_invariants;
use crate::field::lemma_rows_upto_bounds;
use crate::field::lemma_spawn_clear_of_borders;
use crate::field::lock_field_spec;
use crate::field::lock_piece;
use crate::field::mark_cleared_spec;
use crate::field::payloads_ok;
use crate::field::piece_clear_of_borders;
use crate::input::Command;
use crate::tetromino::does_piece_fit;
use crate::tetromino::fits_spec;

verus! {

/// The whole session state: the field, the active piece, the pacing
/// counters, the score and the transient list of just-completed rows.
pub struct Session {
    /// The row-major field buffer.
    pub field: Vec<Cell>,
    /// Catalog index of the active piece (0 to 6).
    pub piece_id: i32,
    /// Quarter turns applied to the active piece; grows, read modulo 4.
    pub rotation_id: i32,
    /// Column of the active piece's template origin.
    pub x: i32,
    /// Row of the active piece's template origin.
    pub y: i32,
    /// Ticks per forced descent; lower is faster.
    pub speed: i32,
    /// Ticks counted toward the next forced descent.
    pub speed_count: i32,
    /// Pieces locked so far; drives the difficulty ramp.
    pub piece_count: i32,
    /// The score.
    pub score: i32,
    /// Rows completed by the last lock, awaiting their collapse.
    pub v_lines: Vec<i32>,
    /// Whether the session has ended.
    pub game_over: bool,
    /// Debounce for the rotate command: set while no rotate is held.
    pub rotate_hold: bool,
}

/// The mathematical value of a session.
#[verifier::ext_equal]
pub ghost struct SessionModel {
    pub field: Seq<Cell>,
    pub piece_id: int,
    pub rotation_id: int,
    pub x: int,
    pub y: int,
    pub speed: int,
    pub speed_count: int,
    pub piece_count: int,
    pub score: int,
    pub v_lines: Seq<int>,
    pub game_over: bool,
    pub rotate_hold: bool,
}

impl View for Session {
    type V = SessionModel;

    open spec fn view(&self) -> SessionModel {
        SessionModel {
            field: self.field@,
            piece_id: self.piece_id as int,
            rotation_id: self.rotation_id as int,
            x: self.x as int,
            y: self.y as int,
            speed: self.speed as int,
            speed_count: self.speed_count as int,
            piece_count: self.piece_count as int,
            score: self.score as int,
            v_lines: ints_of(self.v_lines@),
            game_over: self.game_over,
            rotate_hold: self.rotate_hold,
        }
    }
}

impl SessionModel {
    /// Well-formedness of a session: the field buffer has its full size with
    /// intact borders and catalog piece markers only, the active piece and
    /// the counters are in range, the fall speed never drops below 10, the
    /// recorded rows lie above the bottom border, and while the session runs
    /// the active piece keeps its occupied cells off the border positions.
    pub open spec fn wf(self) -> bool {
        &&& self.field.len() == 216
        &&& border_inv(self.field)
        &&& payloads_ok(self.field)
        &&& 0 <= self.piece_id < 7
        &&& 0 <= self.rotation_id
        &&& 0 <= self.y
        &&& 10 <= self.speed <= 50
        &&& 0 <= self.speed_count < self.speed
        &&& 0 <= self.piece_count
        &&& 0 <= self.score
        &&& forall|k: int| 0 <= k < self.v_lines.len() ==> 0 <= #[trigger] self.v_lines[k] < 17
        &&& (!self.game_over ==> piece_clear_of_borders(
            self.piece_id,
            self.rotation_id,
            self.x,
            self.y,
        ))
    }
}

/// The state a fresh session starts in: the empty field, the first catalog
/// piece at the spawn position, speed 50, and nothing scored.
pub open spec fn initial_model() -> SessionModel {
    SessionModel {
        field: init_field_spec(),
        piece_id: 0,
        rotation_id: 0,
        x: 6,
        y: 0,
        speed: 50,
        speed_count: 0,
        piece_count: 0,
        score: 0,
        v_lines: Seq::empty(),
        game_over: false,
        rotate_hold: true,
    }
}

/// What one command does to the session: quitting ends it, the three moves
/// and the rotation happen exactly when the moved piece still fits, and the
/// rotate debounce re-arms on an idle tick.
pub open spec fn input_step(s: SessionModel, cmd: Command) -> SessionModel {
    match cmd {
        Command::Quit => SessionModel { game_over: true, ..s },
        Command::MoveLeft => {
            if fits_spec(s.field, s.piece_id, s.rotation_id, s.x - 1, s.y) {
                SessionModel { x: s.x - 1, ..s }
            } else {
                s
            }
        },
        Command::MoveRight => {
            if fits_spec(s.field, s.piece_id, s.rotation_id, s.x + 1, s.y) {
                SessionModel { x: s.x + 1, ..s }
            } else {
                s
            }
        },
        Command::SoftDrop => {
            if fits_spec(s.field, s.piece_id, s.rotation_id, s.x, s.y + 1) {
                SessionModel { y: s.y + 1, ..s }
            } else {
                s
            }
        },
        Command::Rotate => {
            if s.rotate_hold && fits_spec(s.field, s.piece_id, s.rotation_id + 1, s.x, s.y) {
                SessionModel { rotation_id: s.rotation_id + 1, rotate_hold: false, ..s }
            } else {
                SessionModel { rotate_hold: false, ..s }
            }
        },
        Command::Idle => SessionModel { rotate_hold: true, ..s },
    }
}

/// The score added for `n` rows cleared at once: nothing for none, then
/// 200, 400, 800 and 1600 — the flat 25 per locked piece comes on top.
pub open spec fn line_bonus(n: int) -> int {
    if n <= 0 {
        0
    } else if n == 1 {
        200
    } else if n == 2 {
        400
    } else if n == 3 {
        800
    } else {
        1600
    }
}

/// What locking the active piece does: its marker is written into the field,
/// complete rows are marked and recorded, the piece counter and the score
/// advance, every fiftieth piece quickens the pace down to the floor of 10,
/// and the next piece spawns at the center of the top row — the session ends
/// exactly when that piece does not fit.
pub open spec fn lock_step(s: SessionModel, id: int) -> SessionModel {
    let f1 = lock_field_spec(s.field, s.piece_id, s.rotation_id, s.x, s.y);
    let rows = completed_rows(f1, s.y);
    let f2 = mark_cleared_spec(f1, s.y);
    let pc = s.piece_count + 1;
    SessionModel {
        field: f2,
        piece_id: id,
        rotation_id: 0,
        x: 6,
        y: 0,
        speed: if pc % 50 == 0 && s.speed > 10 {
            s.speed - 1
        } else {
            s.speed
        },
        piece_count: pc,
        score: s.score + 25 + line_bonus(rows.len() as int),
        v_lines: rows,
        game_over: !fits_spec(f2, id, 0, 6, 0),
        ..s
    }
}

/// What one whole tick does: the fall counter advances and wraps when it
/// reaches the speed, the command is applied, and on a wrap the piece either
/// descends or locks with the freshly drawn piece `id` spawning next.
pub open spec fn tick_step(s: SessionModel, cmd: Command, id: int) -> SessionModel {
    let force = s.speed_count + 1 == s.speed;
    let s1 = SessionModel {
        speed_count: if force {
            0
        } else {
            s.speed_count + 1
        },
        ..s
    };
    let s2 = input_step(s1, cmd);
    if force && !s2.game_over {
        if fits_spec(s2.field, s2.piece_id, s2.rotation_id, s2.x, s2.y + 1) {
            SessionModel { y: s2.y + 1, ..s2 }
        } else {
            lock_step(s2, id)
        }
    } else {
        s2
    }
}

/// What the collapse of the recorded rows does: the field folds over the
/// list, the list empties, and everything else stays.
pub open spec fn collapse_step(s: SessionModel) -> SessionModel {
    SessionModel { field: collapse_seq_spec(s.field, s.v_lines), v_lines: Seq::empty(), ..s }
}

/// Relies on `rand::random`: one uniformly drawn `u32` from the thread-local
/// generator.  Nothing can be promised of the value.
#[verifier::external_body]
fn random_u32() -> (r: u32) {
    rand::random::<u32>()
}

impl Session {
    /// Starts a session: the empty bordered field, the first catalog piece
    /// at the spawn position, and the initial pace.
    pub fn new() -> (s: Session)
        ensures
            s@ == initial_model(),
            s@.wf(),
    {
        let field: Vec<Cell> = build_field();
        let s = Session {
            field,
            piece_id: 0,
            rotation_id: 0,
            x: FIELD_WIDTH / 2,
            y: 0,
            speed: 50,
            speed_count: 0,
            piece_count: 0,
            score: 0,
            v_lines: Vec::new(),
            game_over: false,
            rotate_hold: true,
        };
        proof {
            assert(s@ =~= initial_model());
            lemma_spawn_clear_of_borders(0, 0);
            assert(border_inv(init_field_spec())) by {
                assert forall|x: int, y: int|
                    0 <= x < 12 && 0 <= y < 18 && (x == 0 || x == 11 || y == 17) implies
                    crate::field::cell_at(init_field_spec(), x, y) == Cell::Border by {
                    crate::field::lemma_grid_coords(x, y);
                }
            }
            assert(payloads_ok(init_field_spec())) by {
                assert forall|idx: int| 0 <= idx < 216 implies (#[trigger] init_field_spec()[idx]
                    matches Cell::Piece(p) ==> p < 7) by {
                    crate::field::lemma_grid_index(idx);
                }
            }
        }
        s
    }

    /// Applies one decoded command to the session, gating every move and
    /// rotation on the fit test, exactly as `input_step` states.
    pub fn update_input(&mut self, cmd: Command)
        requires
            old(self)@.wf(),
            old(self).rotation_id < i32::MAX,
            i32::MIN < old(self).x,
            old(self).x <= i32::MAX - 4,
            old(self).y <= i32::MAX - 4,
    ensures
            final(self)@.wf(),
            final(self)@ == input_step(old(self)@, cmd),
    {
        match cmd {
            Command::Quit => {
                self.game_over = true;
            },
            Command::MoveLeft => {
                if does_piece_fit(&self.field, self.piece_id, self.rotation_id, self.x - 1, self.y)
                {
                    self.x = self.x - 1;
                    proof {
                        lemma_fits_clear_of_borders(
                            self.field@,
                            self.piece_id as int,
                            self.rotation_id as int,
                            self.x as int,
                            self.y as int,
                        );
                    }
                }
            },
            Command::MoveRight => {
                if does_piece_fit(&self.field, self.piece_id, self.rotation_id, self.x + 1, self.y)
                {
                    self.x = self.x + 1;
                    proof {
                        lemma_fits_clear_of_borders(
                            self.field@,
                            self.piece_id as int,
                            self.rotation_id as int,
                            self.x as int,
                            self.y as int,
                        );
                    }
                }
            },
            Command::SoftDrop => {
                if does_piece_fit(&self.field, self.piece_id, self.rotation_id, self.x, self.y + 1)
                {
                    self.y = self.y + 1;
                    proof {
                        lemma_fits_clear_of_borders(
                            self.field@,
                            self.piece_id as int,
                            self.rotation_id as int,
                            self.x as int,
                            self.y as int,
                        );
                    }
                }
            },
            Command::Rotate => {
                if self.rotate_hold && does_piece_fit(
                    &self.field,
                    self.piece_id,
                    self.rotation_id + 1,
                    self.x,
                    self.y,
                ) {
                    self.rotation_id = self.rotation_id + 1;
                    proof {
                        lemma_fits_clear_of_borders(
                            self.field@,
                            self.piece_id as int,
                            self.rotation_id as int,
                            self.x as int,
                            self.y as int,
                        );
                    }
                }
                self.rotate_hold = false;
            },
            Command::Idle => {
                self.rotate_hold = true;
            },
        }
        proof {
            assert(self@ =~= input_step(old(self)@, cmd));
        }
    }

    /// Locks the active piece, marks and records complete rows, scores the
    /// lock, advances the difficulty, and spawns the piece `new_piece_id` at
    /// the center of the top row.  The session ends exactly when the spawned
    /// piece fails the fit test against the marked field.  Locking happens
    /// on a forced descent, so the fall counter has just been reset.
    pub fn lock_and_spawn(&mut self, new_piece_id: i32)
        requires
            old(self)@.wf(),
            !old(self).game_over,
            0 <= new_piece_id < 7,
            old(self).speed_count == 0,
            old(self).score <= i32::MAX - 1625,
            old(self).piece_count < i32::MAX,
            old(self).x <= i32::MAX - 3,
            old(self).y <= i32::MAX - 4,
        ensures
            final(self)@.wf(),
            final(self)@ == lock_step(old(self)@, new_piece_id as int),
            final(self)@.game_over == !fits_spec(
                final(self)@.field,
                new_piece_id as int,
                0,
                6,
                0,
            ),
            final(self)@.speed >= 10,
    {
        let ghost s0: SessionModel = self@;
        lock_piece(&mut self.field, self.piece_id, self.rotation_id, self.x, self.y);
        let ghost f1: Seq<Cell> = self.field@;
        proof {
            lemma_lock_preserves_invariants(
                s0.field,
                s0.piece_id,
                s0.rotation_id,
                s0.x,
                s0.y,
            );
        }
        let lines: Vec<i32> = detect_and_clear_lines(&mut self.field, self.y);
        proof {
            lemma_mark_preserves_invariants(f1, s0.y);
            lemma_rows_upto_bounds(f1, s0.y, 4);
        }
        self.score = self.score + 25;
        let n: usize = lines.len();
        if n > 0 {
            let bonus: i32 = if n == 1 {
                200
            } else if n == 2 {
                400
            } else if n == 3 {
                800
            } else {
                1600
            };
            self.score = self.score + bonus;
        }
        self.piece_count = self.piece_count + 1;
        if self.piece_count % 50 == 0 && self.speed > 10 {
            self.speed = self.speed - 1;
        }
        self.v_lines = lines;
        self.x = FIELD_WIDTH / 2;
        self.y = 0;
        self.rotation_id = 0;
        self.piece_id = new_piece_id;
        self.game_over = !does_piece_fit(&self.field, new_piece_id, 0, self.x, self.y);
        proof {
            lemma_spawn_clear_of_borders(new_piece_id as int, 0);
            assert(self@ =~= lock_step(s0, new_piece_id as int));
        }
    }

    /// Collapses every row recorded by the last lock, first to last, and
    /// clears the record; called once the renderer has shown the marked rows.
    pub fn collapse_completed(&mut self)
        requires
            old(self)@.wf(),
        ensures
            final(self)@.wf(),
            final(self)@ == collapse_step(old(self)@),
    {
        proof {
            assert forall|k: int| 0 <= k < self.v_lines@.len() implies 0 <= #[trigger] self
                .v_lines@[k] < 18 by {
                assert(self@.v_lines[k] == self.v_lines@[k] as int);
                assert(0 <= self@.v_lines[k] < 17);
            }
        }
        collapse_lines(&mut self.field, &self.v_lines);
        self.v_lines = Vec::new();
        proof {
            lemma_collapse_seq_preserves_invariants(old(self)@.field, old(self)@.v_lines);
            assert(self@ =~= collapse_step(old(self)@));
        }
    }

    /// Runs one simulation tick: the fall counter advances and wraps when it
    /// reaches the speed, the command is applied through the fit test, and
    /// on a wrap the piece either descends one row or locks, scores, and
    /// hands over to a freshly drawn piece.  The fall speed never drops
    /// below 10 ticks per cell.
    pub fn tick(&mut self, cmd: Command)
        requires
            old(self)@.wf(),
            !old(self).game_over,
            old(self).score <= i32::MAX - 1625,
            old(self).piece_count < i32::MAX,
            old(self).rotation_id < i32::MAX,
            i32::MIN < old(self).x,
            old(self).x <= i32::MAX - 4,
            old(self).y <= i32::MAX - 5,
        ensures
            final(self)@.wf(),
            final(self)@.speed >= 10,
            exists|id: int| 0 <= id < 7 && final(self)@ == tick_step(old(self)@, cmd, id),
    {
        self.speed_count = self.speed_count + 1;
        let force: bool = self.speed_count == self.speed;
        if force {
            self.speed_count = 0;
        }
        let ghost s1: SessionModel = self@;
        proof {
            assert(s1 =~= SessionModel {
                speed_count: if old(self)@.speed_count + 1 == old(self)@.speed {
                    0int
                } else {
                    old(self)@.speed_count + 1
                },
                ..old(self)@
            });
        }
        self.update_input(cmd);
        let ghost mut picked: int = 0;
        if force && !self.game_over {
            if does_piece_fit(&self.field, self.piece_id, self.rotation_id, self.x, self.y + 1) {
                self.y = self.y + 1;
                proof {
                    lemma_fits_clear_of_borders(
                        self.field@,
                        self.piece_id as int,
                        self.rotation_id as int,
                        self.x as int,
                        self.y as int,
                    );
                }
            } else {
                let r: u32 = random_u32();
                let id: i32 = (r % 7) as i32;
                self.lock_and_spawn(id);
                proof {
                    picked = id as int;
                }
            }
        }
        proof {
            assert(0 <= picked < 7);
            assert(self@ =~= tick_step(old(self)@, cmd, picked));
        }
    }
}

} // verus!

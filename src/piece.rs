//! The falling piece: its geometry, the two-slot piece queue, timing, and the
//! per-tick rules for spawning, dropping, moving, rotating and locking.
use crate::playfield::{
    cell_at, clear_full_rows, compacted, full_rows, grid_of, in_bounds, set_cell_at,
};
use crate::scoring::{drop_delay, gravity_delay, scored, GameSession};
use nalgebra::SMatrix;
use rand::Rng;
use vstd::prelude::*;

verus! {

/// The one failure of the engine: a piece type outside `0..7` reached the
/// shape table.
#[derive(Debug, Clone, Copy, PartialEq, Eq)]
pub enum PieceError {
    InvalidPieceType,
}

/// The falling piece. The center cell `(cx, cy)` is always occupied; the
/// other three cells sit at the offsets `(x1, y1)`, `(x2, y2)`, `(x3, y3)`
/// from it. `pieces` is the queue `[current, next]` of piece types.
pub struct CurrentObject {
    pub cx: u8,
    pub cy: u8,
    pub x1: i8,
    pub y1: i8,
    pub x2: i8,
    pub y2: i8,
    pub x3: i8,
    pub y3: i8,
    /// Ticks left before the piece drops by one row.
    pub tick_delay: i8,
    /// Whether a piece is falling, or the engine waits to spawn the next.
    pub exists: bool,
    /// Ticks left before the next piece spawns.
    pub exist_delay: i8,
    pub otype: u8,
    /// Ticks left before a held horizontal input moves the piece again.
    pub move_delay: u8,
    /// Set when a new piece had no room to move: the game is over.
    pub dead: bool,
    pub pieces: Vec<u8>,
}

/// The state of a `CurrentObject` as mathematical values.
pub struct PieceView {
    pub cx: int,
    pub cy: int,
    pub x1: int,
    pub y1: int,
    pub x2: int,
    pub y2: int,
    pub x3: int,
    pub y3: int,
    pub tick_delay: int,
    pub exists: bool,
    pub exist_delay: int,
    pub otype: int,
    pub move_delay: int,
    pub dead: bool,
    pub pieces: Seq<u8>,
}

impl View for CurrentObject {
    type V = PieceView;

    open spec fn view(&self) -> PieceView {
        PieceView {
            cx: self.cx as int,
            cy: self.cy as int,
            x1: self.x1 as int,
            y1: self.y1 as int,
            x2: self.x2 as int,
            y2: self.y2 as int,
            x3: self.x3 as int,
            y3: self.y3 as int,
            tick_delay: self.tick_delay as int,
            exists: self.exists,
            exist_delay: self.exist_delay as int,
            otype: self.otype as int,
            move_delay: self.move_delay as int,
            dead: self.dead,
            pieces: self.pieces@,
        }
    }
}

pub open spec fn small(v: int) -> bool {
    -2 <= v <= 2
}

impl PieceView {
    /// The four cells are pairwise distinct: no offset is zero and no two
    /// offsets are equal.
    pub open spec fn distinct_cells(self) -> bool {
        &&& !(self.x1 == 0 && self.y1 == 0)
        &&& !(self.x2 == 0 && self.y2 == 0)
        &&& !(self.x3 == 0 && self.y3 == 0)
        &&& !(self.x1 == self.x2 && self.y1 == self.y2)
        &&& !(self.x1 == self.x3 && self.y1 == self.y3)
        &&& !(self.x2 == self.x3 && self.y2 == self.y3)
    }

    /// Every cell of the piece, moved by `(dx, dy)`, lies in the well.
    pub open spec fn inside(self, dx: int, dy: int) -> bool {
        &&& in_bounds(self.cx + dx, self.cy + dy)
        &&& in_bounds(self.cx + self.x1 + dx, self.cy + self.y1 + dy)
        &&& in_bounds(self.cx + self.x2 + dx, self.cy + self.y2 + dy)
        &&& in_bounds(self.cx + self.x3 + dx, self.cy + self.y3 + dy)
    }

    /// The invariant of the piece state: the queue holds two valid types, the
    /// center lies in the well, offsets are small, and a falling piece lies
    /// wholly in the well on four distinct cells.
    pub open spec fn wf(self) -> bool {
        &&& self.pieces.len() == 2
        &&& self.pieces[0] < 7
        &&& self.pieces[1] < 7
        &&& 0 <= self.otype < 7
        &&& in_bounds(self.cx, self.cy)
        &&& small(self.x1) && small(self.y1)
        &&& small(self.x2) && small(self.y2)
        &&& small(self.x3) && small(self.y3)
        &&& self.exists ==> self.inside(0, 0) && self.distinct_cells()
    }
}

/// The cell `(x, y)` lies in the well and is empty.
pub open spec fn cell_free(g: Seq<Seq<u8>>, x: int, y: int) -> bool {
    in_bounds(x, y) && g[y][x] == 0
}

/// The collision test: every cell of the piece, moved by `(dx, dy)`, lies in
/// the well on an empty cell.
pub open spec fn fits(g: Seq<Seq<u8>>, p: PieceView, dx: int, dy: int) -> bool {
    &&& cell_free(g, p.cx + dx, p.cy + dy)
    &&& cell_free(g, p.cx + p.x1 + dx, p.cy + p.y1 + dy)
    &&& cell_free(g, p.cx + p.x2 + dx, p.cy + p.y2 + dy)
    &&& cell_free(g, p.cx + p.x3 + dx, p.cy + p.y3 + dy)
}

/// The x part of an offset turned a quarter: clockwise (`r > 0`) takes
/// `(x, y)` to `(y, -x)`, counter-clockwise takes it to `(-y, x)`.
pub open spec fn turn_x(r: int, x: int, y: int) -> int {
    if r > 0 {
        y
    } else {
        -y
    }
}

/// The y part of an offset turned a quarter; see `turn_x`.
pub open spec fn turn_y(r: int, x: int, y: int) -> int {
    if r > 0 {
        -x
    } else {
        x
    }
}

/// The piece with its three offsets turned a quarter in direction `r`.
pub open spec fn turned(p: PieceView, r: int) -> PieceView {
    PieceView {
        x1: turn_x(r, p.x1, p.y1),
        y1: turn_y(r, p.x1, p.y1),
        x2: turn_x(r, p.x2, p.y2),
        y2: turn_y(r, p.x2, p.y2),
        x3: turn_x(r, p.x3, p.y3),
        y3: turn_y(r, p.x3, p.y3),
        ..p
    }
}

/// The piece with its center moved by `(dx, dy)`.
pub open spec fn moved(p: PieceView, dx: int, dy: int) -> PieceView {
    PieceView { cx: p.cx + dx, cy: p.cy + dy, ..p }
}

/// The offsets `(x1, y1, x2, y2, x3, y3)` of piece type `t`:
/// L, J, I, O, Z, S, T for `t` from 0 to 6.
pub open spec fn shape(t: int) -> (int, int, int, int, int, int) {
    if t == 0 {
        (-1, 0, -1, 1, 1, 0)
    } else if t == 1 {
        (-1, 0, 1, 1, 1, 0)
    } else if t == 2 {
        (-1, 0, 2, 0, 1, 0)
    } else if t == 3 {
        (0, 1, 1, 1, 1, 0)
    } else if t == 4 {
        (-1, 0, 0, 1, 1, 1)
    } else if t == 5 {
        (1, 0, 0, 1, -1, 1)
    } else {
        (-1, 0, 1, 0, 0, 1)
    }
}

/// A new piece: the queue moves on and takes `draw` at its back, and the
/// piece at its front appears at column 4, row 1 with its type's shape.
pub open spec fn spawned(p: PieceView, draw: u8) -> PieceView {
    let t = p.pieces[1];
    let s = shape(t as int);
    PieceView {
        cx: 4,
        cy: 1,
        x1: s.0,
        y1: s.1,
        x2: s.2,
        y2: s.3,
        x3: s.4,
        y3: s.5,
        otype: t as int,
        exists: true,
        pieces: seq![t, draw],
        ..p
    }
}

/// A freshly spawned piece moves down one row, or else left, or else right,
/// whichever fits first; where none fits the game is over.
pub open spec fn settled(p: PieceView, g: Seq<Seq<u8>>) -> PieceView {
    if fits(g, p, 0, 1) {
        moved(p, 0, 1)
    } else if fits(g, p, -1, 0) {
        moved(p, -1, 0)
    } else if fits(g, p, 1, 0) {
        moved(p, 1, 0)
    } else {
        PieceView { dead: true, ..p }
    }
}

/// The piece after at most `n` one-row drops, stopping where it is blocked.
pub open spec fn dropped(p: PieceView, g: Seq<Seq<u8>>, n: nat) -> PieceView
    decreases n,
{
    if n == 0 {
        p
    } else if fits(g, p, 0, 1) {
        dropped(moved(p, 0, 1), g, (n - 1) as nat)
    } else {
        p
    }
}

/// The cell `(x, y)` is one of the four cells of the piece.
pub open spec fn covers(p: PieceView, x: int, y: int) -> bool {
    ||| x == p.cx && y == p.cy
    ||| x == p.cx + p.x1 && y == p.cy + p.y1
    ||| x == p.cx + p.x2 && y == p.cy + p.y2
    ||| x == p.cx + p.x3 && y == p.cy + p.y3
}

/// The grid with the four cells of the piece set to its type plus one.
pub open spec fn locked(g: Seq<Seq<u8>>, p: PieceView) -> Seq<Seq<u8>> {
    Seq::new(
        18,
        |y: int|
            Seq::new(
                10,
                |x: int|
                    if covers(p, x, y) {
                        (p.otype + 1) as u8
                    } else {
                        g[y][x]
                    },
            ),
    )
}

/// Gravity: when the drop delay has run out the piece moves down a row and
/// the delay restarts from the level's table entry, or, where it cannot move,
/// it locks into the grid, full rows are cleared and scored, and the engine
/// waits ten ticks for the next piece. Otherwise the delay counts down by one,
/// or by three under soft drop.
pub open spec fn fallen(p: PieceView, g: Seq<Seq<u8>>, s: GameSession, soft: bool) -> (
    PieceView,
    Seq<Seq<u8>>,
    GameSession,
) {
    if p.tick_delay <= 0 {
        if fits(g, p, 0, 1) {
            (PieceView { tick_delay: gravity_delay(s.level) as int, ..moved(p, 0, 1) }, g, s)
        } else {
            let g2 = locked(g, p);
            (
                PieceView { exists: false, exist_delay: 10, ..p },
                compacted(g2),
                scored(s, full_rows(g2) as int),
            )
        }
    } else {
        (PieceView { tick_delay: p.tick_delay - if soft { 3int } else { 1int }, ..p }, g, s)
    }
}

/// Horizontal input `dx` (negative moves right, positive moves left): with no
/// delay pending the piece moves one column if it fits, and the delay is set
/// to 15; a pending delay counts down, and drops to 0 once the input is
/// released.
pub open spec fn shifted(p: PieceView, g: Seq<Seq<u8>>, dx: int) -> PieceView {
    if p.move_delay == 0 {
        if dx == 0 {
            p
        } else {
            let step: int = if dx < 0 {
                1
            } else {
                -1
            };
            if fits(g, p, step, 0) {
                PieceView { move_delay: 15, ..moved(p, step, 0) }
            } else {
                p
            }
        }
    } else {
        PieceView {
            move_delay: if dx == 0 {
                0
            } else {
                p.move_delay - 1
            },
            ..p
        }
    }
}

/// Rotation input `r`: the offsets turn a quarter when the turned piece fits.
pub open spec fn rotated(p: PieceView, g: Seq<Seq<u8>>, r: int) -> PieceView {
    if r != 0 && fits(g, turned(p, r), 0, 0) {
        turned(p, r)
    } else {
        p
    }
}

/// A new piece spawns on this tick.
pub open spec fn spawn_due(p: PieceView) -> bool {
    !p.exists && p.exist_delay <= 0
}

/// One tick of the engine, for input `(dx, rotation, soft drop, hard drop)`,
/// where `draw` is the type that joins the queue if a piece spawns.
pub open spec fn tick_spec(
    p: PieceView,
    g: Seq<Seq<u8>>,
    s: GameSession,
    input: (i8, i8, bool, bool),
    draw: u8,
) -> (PieceView, Seq<Seq<u8>>, GameSession) {
    if !p.exists {
        if p.exist_delay <= 0 {
            (settled(spawned(p, draw), g), g, s)
        } else {
            (PieceView { exist_delay: p.exist_delay - 1, ..p }, g, s)
        }
    } else {
        let a = if input.3 {
            PieceView { tick_delay: 0, ..dropped(p, g, 20) }
        } else {
            p
        };
        let (b, g2, s2) = fallen(a, g, s, input.2);
        (rotated(shifted(b, g2, input.0 as int), g2, input.1 as int), g2, s2)
    }
}

/// Relies on `rand::rng` and `Rng::random_range`: a value drawn from `0..n`.
/// `random_range` panics on an empty range, which `n > 0` rules out.
#[verifier::external_body]
fn random_below(n: u8) -> (r: u8)
    requires
        n > 0,
    ensures
        r < n,
{
    rand::rng().random_range(0..n)
}

/// Turns the offset `(x, y)` a quarter: clockwise for `r > 0`, else
/// counter-clockwise.
pub fn turn(r: i8, x: i8, y: i8) -> (res: (i8, i8))
    requires
        small(x as int),
        small(y as int),
    ensures
        res.0 == turn_x(r as int, x as int, y as int),
        res.1 == turn_y(r as int, x as int, y as int),
{
    if r > 0 {
        (y, -x)
    } else {
        (-y, x)
    }
}

impl CurrentObject {
    /// Whether the state meets the invariant that the engine's operations
    /// ask for; see `PieceView::wf`.
    pub fn is_valid(&self) -> (r: bool)
        ensures
            r == self@.wf(),
    {
        if self.pieces.len() != 2 || self.pieces[0] >= 7 || self.pieces[1] >= 7 {
            return false;
        }
        if self.otype >= 7 || self.cx >= 10 || self.cy >= 18 {
            return false;
        }
        let offsets = [self.x1, self.y1, self.x2, self.y2, self.x3, self.y3];
        let mut i: usize = 0;
        while i < 6
            invariant
                0 <= i <= 6,
                offsets@ == seq![self.x1, self.y1, self.x2, self.y2, self.x3, self.y3],
                forall|j: int| 0 <= j < i ==> small(#[trigger] offsets@[j] as int),
            decreases 6 - i,
        {
            if offsets[i] < -2 || offsets[i] > 2 {
                return false;
            }
            i = i + 1;
        }
        assert(small(offsets@[0] as int) && small(offsets@[1] as int) && small(offsets@[2] as int)
            && small(offsets@[3] as int) && small(offsets@[4] as int) && small(offsets@[5] as int));
        if !self.exists {
            return true;
        }
        let cx = self.cx as i8;
        let cy = self.cy as i8;
        let inside = !CurrentObject::check_out_of_bounds(self.x1 + cx, self.y1 + cy)
            && !CurrentObject::check_out_of_bounds(self.x2 + cx, self.y2 + cy)
            && !CurrentObject::check_out_of_bounds(self.x3 + cx, self.y3 + cy);
        let distinct = !(self.x1 == 0 && self.y1 == 0)
            && !(self.x2 == 0 && self.y2 == 0)
            && !(self.x3 == 0 && self.y3 == 0)
            && !(self.x1 == self.x2 && self.y1 == self.y2)
            && !(self.x1 == self.x3 && self.y1 == self.y3)
            && !(self.x2 == self.x3 && self.y2 == self.y3);
        inside && distinct
    }

    /// Whether `(x, y)` lies outside the well.
    pub fn check_out_of_bounds(x: i8, y: i8) -> (r: bool)
        ensures
            r == !in_bounds(x as int, y as int),
    {
        if x < 0 || x >= 10 {
            return true;
        }
        if y < 0 || y >= 18 {
            return true;
        }
        false
    }

    /// Whether the four cells `(tx0, ty0)` to `(tx3, ty3)` all lie in the
    /// well and are empty.
    fn cells_free(
        matrix: &SMatrix<u8, 10, 18>,
        tx0: i8,
        ty0: i8,
        tx1: i8,
        ty1: i8,
        tx2: i8,
        ty2: i8,
        tx3: i8,
        ty3: i8,
    ) -> (r: bool)
        ensures
            r == {
                &&& cell_free(grid_of(*matrix), tx0 as int, ty0 as int)
                &&& cell_free(grid_of(*matrix), tx1 as int, ty1 as int)
                &&& cell_free(grid_of(*matrix), tx2 as int, ty2 as int)
                &&& cell_free(grid_of(*matrix), tx3 as int, ty3 as int)
            },
    {
        let outside = CurrentObject::check_out_of_bounds(tx0, ty0)
            || CurrentObject::check_out_of_bounds(tx1, ty1)
            || CurrentObject::check_out_of_bounds(tx2, ty2)
            || CurrentObject::check_out_of_bounds(tx3, ty3);
        if outside {
            return false;
        }
        let taken = cell_at(matrix, tx0 as usize, ty0 as usize) != 0
            || cell_at(matrix, tx1 as usize, ty1 as usize) != 0
            || cell_at(matrix, tx2 as usize, ty2 as usize) != 0
            || cell_at(matrix, tx3 as usize, ty3 as usize) != 0;
        !taken
    }

    /// The collision test for a move by `(x, y)`: whether every cell of the
    /// moved piece lies in the well on an empty cell.
    pub fn try_move(&self, matrix: &SMatrix<u8, 10, 18>, x: i8, y: i8) -> (r: bool)
        requires
            self@.wf(),
            -1 <= x <= 1,
            -1 <= y <= 1,
        ensures
            r == fits(grid_of(*matrix), self@, x as int, y as int),
    {
        let cx = self.cx as i8;
        let cy = self.cy as i8;
        CurrentObject::cells_free(
            matrix,
            cx + x,
            cy + y,
            self.x1 + x + cx,
            self.y1 + y + cy,
            self.x2 + x + cx,
            self.y2 + y + cy,
            self.x3 + x + cx,
            self.y3 + y + cy,
        )
    }

    /// The collision test for a rotation in direction `r`: whether every cell
    /// of the turned piece lies in the well on an empty cell.
    pub fn try_rotate(&self, matrix: &SMatrix<u8, 10, 18>, r: i8) -> (res: bool)
        requires
            self@.wf(),
        ensures
            res == fits(grid_of(*matrix), turned(self@, r as int), 0, 0),
    {
        let cx = self.cx as i8;
        let cy = self.cy as i8;
        let (a1, b1) = turn(r, self.x1, self.y1);
        let (a2, b2) = turn(r, self.x2, self.y2);
        let (a3, b3) = turn(r, self.x3, self.y3);
        CurrentObject::cells_free(
            matrix,
            cx,
            cy,
            a1 + cx,
            b1 + cy,
            a2 + cx,
            b2 + cy,
            a3 + cx,
            b3 + cy,
        )
    }

    /// Sets the three offsets.
    fn set_positions(&mut self, x1: i8, y1: i8, x2: i8, y2: i8, x3: i8, y3: i8)
        ensures
            final(self)@ == (PieceView {
                x1: x1 as int,
                y1: y1 as int,
                x2: x2 as int,
                y2: y2 as int,
                x3: x3 as int,
                y3: y3 as int,
                ..old(self)@
            }),
    {
        self.x1 = x1;
        self.y1 = y1;
        self.x2 = x2;
        self.y2 = y2;
        self.x3 = x3;
        self.y3 = y3;
    }

    /// Spawns the next piece with `draw` as the type that joins the queue.
    /// A `draw` outside `0..7` is refused and changes nothing.
    pub fn reset_with(&mut self, draw: u8) -> (r: Result<(), PieceError>)
        requires
            old(self)@.wf(),
        ensures
            draw < 7 ==> r is Ok && final(self)@ == spawned(old(self)@, draw),
            draw >= 7 ==> r is Err && final(self)@ == old(self)@,
            final(self)@.wf(),
    {
        if draw >= 7 {
            return Err(PieceError::InvalidPieceType);
        }
        self.pieces.push(draw);
        self.pieces.remove(0);
        self.cx = 4;
        self.cy = 1;
        self.otype = self.pieces[0];
        self.exists = true;
        match self.pieces[0] {
            0 => self.set_positions(-1, 0, -1, 1, 1, 0),
            1 => self.set_positions(-1, 0, 1, 1, 1, 0),
            2 => self.set_positions(-1, 0, 2, 0, 1, 0),
            3 => self.set_positions(0, 1, 1, 1, 1, 0),
            4 => self.set_positions(-1, 0, 0, 1, 1, 1),
            5 => self.set_positions(1, 0, 0, 1, -1, 1),
            6 => self.set_positions(-1, 0, 1, 0, 0, 1),
            _ => return Err(PieceError::InvalidPieceType),
        }
        assert(self.pieces@ =~= seq![old(self)@.pieces[1], draw]);
        Ok(())
    }

    /// Spawns the next piece; the type that joins the queue is drawn
    /// uniformly from `0..7`.
    pub fn reset_obj(&mut self) -> (r: Result<(), PieceError>)
        requires
            old(self)@.wf(),
        ensures
            r is Ok,
            exists|d: u8| d < 7 && final(self)@ == spawned(old(self)@, d),
            final(self)@.wf(),
    {
        let draw = random_below(7);
        self.reset_with(draw)
    }

    /// Writes the four cells of the piece into the grid with value
    /// `otype + 1`.
    fn lock_into(&self, matrix: &mut SMatrix<u8, 10, 18>)
        requires
            self@.wf(),
            self@.exists,
        ensures
            grid_of(*final(matrix)) == locked(grid_of(*old(matrix)), self@),
    {
        let ghost g0 = grid_of(*matrix);
        let v = self.otype + 1;
        let cx = self.cx as i8;
        let cy = self.cy as i8;
        set_cell_at(matrix, self.cx as usize, self.cy as usize, v);
        set_cell_at(matrix, (self.x1 + cx) as usize, (self.y1 + cy) as usize, v);
        set_cell_at(matrix, (self.x2 + cx) as usize, (self.y2 + cy) as usize, v);
        set_cell_at(matrix, (self.x3 + cx) as usize, (self.y3 + cy) as usize, v);
        assert(grid_of(*matrix) =~~= locked(g0, self@));
    }

    /// Clears the full rows of the grid and scores them: the award for the
    /// number cleared at the level from before, the rows added to the line
    /// total, and the level recomputed from it.
    pub fn check_rows(map: &mut SMatrix<u8, 10, 18>, session: &mut GameSession)
        ensures
            grid_of(*final(map)) == compacted(grid_of(*old(map))),
            *final(session) == scored(*old(session), full_rows(grid_of(*old(map))) as int),
    {
        let cleared = clear_full_rows(map);
        session.record_clear(cleared);
    }

    /// Moves a freshly spawned piece down, or else left, or else right;
    /// where none fits, marks the game over.
    fn settle(&mut self, matrix: &SMatrix<u8, 10, 18>)
        requires
            old(self)@.wf(),
        ensures
            final(self)@ == settled(old(self)@, grid_of(*matrix)),
            final(self)@.wf(),
    {
        if self.try_move(matrix, 0, 1) {
            self.cy = self.cy + 1;
        } else if self.try_move(matrix, -1, 0) {
            self.cx = self.cx - 1;
        } else if self.try_move(matrix, 1, 0) {
            self.cx = self.cx + 1;
        } else {
            self.dead = true;
        }
    }

    /// Drops the piece row by row until it is blocked, at most twenty rows,
    /// and clears the drop delay.
    fn hard_drop(&mut self, matrix: &SMatrix<u8, 10, 18>)
        requires
            old(self)@.wf(),
        ensures
            final(self)@ == (PieceView {
                tick_delay: 0,
                ..dropped(old(self)@, grid_of(*matrix), 20)
            }),
            final(self)@.exists == old(self)@.exists,
            final(self)@.wf(),
    {
        let ghost g = grid_of(*matrix);
        let ghost p0 = self@;
        let mut n: u8 = 0;
        let mut blocked = false;
        while n < 20 && !blocked
            invariant
                n <= 20,
                g == grid_of(*matrix),
                self@.wf(),
                self@.exists == p0.exists,
                dropped(p0, g, 20) == if blocked {
                    self@
                } else {
                    dropped(self@, g, (20 - n) as nat)
                },
            decreases 20 - n + if blocked {
                0int
            } else {
                1int
            },
        {
            if self.try_move(matrix, 0, 1) {
                self.cy = self.cy + 1;
                n = n + 1;
            } else {
                blocked = true;
            }
        }
        self.tick_delay = 0;
    }

    /// Gravity and locking for one tick; see `fallen`.
    fn fall(&mut self, matrix: &mut SMatrix<u8, 10, 18>, session: &mut GameSession, soft: bool)
        requires
            old(self)@.wf(),
            old(self)@.exists,
        ensures
            (final(self)@, grid_of(*final(matrix)), *final(session)) == fallen(
                old(self)@,
                grid_of(*old(matrix)),
                *old(session),
                soft,
            ),
            final(self)@.wf(),
    {
        if self.tick_delay <= 0 {
            if self.try_move(matrix, 0, 1) {
                self.cy = self.cy + 1;
                self.tick_delay = drop_delay(session.level);
            } else {
                self.lock_into(matrix);
                self.exists = false;
                self.exist_delay = 10;
                CurrentObject::check_rows(matrix, session);
            }
        } else if soft {
            self.tick_delay = self.tick_delay - 3;
        } else {
            self.tick_delay = self.tick_delay - 1;
        }
    }

    /// Horizontal movement for one tick; see `shifted`.
    fn shift(&mut self, matrix: &SMatrix<u8, 10, 18>, dx: i8)
        requires
            old(self)@.wf(),
        ensures
            final(self)@ == shifted(old(self)@, grid_of(*matrix), dx as int),
            final(self)@.wf(),
    {
        if self.move_delay == 0 {
            if dx != 0 {
                if dx < 0 {
                    if self.try_move(matrix, 1, 0) {
                        self.cx = self.cx + 1;
                        self.move_delay = 15;
                    }
                } else {
                    if self.try_move(matrix, -1, 0) {
                        self.cx = self.cx - 1;
                        self.move_delay = 15;
                    }
                }
            }
        } else {
            self.move_delay = self.move_delay - 1;
            if dx == 0 {
                self.move_delay = 0;
            }
        }
    }

    /// Rotation for one tick; see `rotated`.
    fn rotate(&mut self, matrix: &SMatrix<u8, 10, 18>, r: i8)
        requires
            old(self)@.wf(),
        ensures
            final(self)@ == rotated(old(self)@, grid_of(*matrix), r as int),
            final(self)@.wf(),
    {
        if r != 0 && self.try_rotate(matrix, r) {
            let (a1, b1) = turn(r, self.x1, self.y1);
            let (a2, b2) = turn(r, self.x2, self.y2);
            let (a3, b3) = turn(r, self.x3, self.y3);
            self.set_positions(a1, b1, a2, b2, a3, b3);
        }
    }

    /// One tick of the engine for input `(dx, rotation, soft drop, hard
    /// drop)`, where `draw` is the type that joins the queue if a piece
    /// spawns on this tick. Returns whether a piece spawned. A spawn with a
    /// `draw` outside `0..7` fails and changes nothing.
    pub fn tick_with_draw(
        &mut self,
        matrix: &mut SMatrix<u8, 10, 18>,
        input: (i8, i8, bool, bool),
        session: &mut GameSession,
        draw: u8,
    ) -> (r: Result<bool, PieceError>)
        requires
            old(self)@.wf(),
        ensures
            spawn_due(old(self)@) && draw >= 7 ==> {
                &&& r is Err
                &&& final(self)@ == old(self)@
                &&& *final(matrix) == *old(matrix)
                &&& *final(session) == *old(session)
            },
            !(spawn_due(old(self)@) && draw >= 7) ==> {
                &&& r matches Ok(spawned) && spawned == spawn_due(old(self)@)
                &&& (final(self)@, grid_of(*final(matrix)), *final(session)) == tick_spec(
                    old(self)@,
                    grid_of(*old(matrix)),
                    *old(session),
                    input,
                    draw,
                )
            },
            final(self)@.wf(),
    {
        if !self.exists {
            if self.exist_delay <= 0 {
                match self.reset_with(draw) {
                    Ok(()) => {},
                    Err(e) => return Err(e),
                }
                self.settle(matrix);
                return Ok(true);
            } else {
                self.exist_delay = self.exist_delay - 1;
                return Ok(false);
            }
        }
        if input.3 {
            self.hard_drop(matrix);
        }
        self.fall(matrix, session, input.2);
        self.shift(matrix, input.0);
        self.rotate(matrix, input.1);
        Ok(false)
    }

    /// One tick of the engine for input `(dx, rotation, soft drop, hard
    /// drop)`; when a piece spawns, the type that joins the queue is drawn
    /// uniformly from `0..7`. Returns whether a piece spawned.
    pub fn tick_obj(
        &mut self,
        matrix: &mut SMatrix<u8, 10, 18>,
        input: (i8, i8, bool, bool),
        session: &mut GameSession,
    ) -> (r: Result<bool, PieceError>)
        requires
            old(self)@.wf(),
        ensures
            r matches Ok(spawned) && spawned == spawn_due(old(self)@),
            exists|d: u8|
                d < 7 && (final(self)@, grid_of(*final(matrix)), *final(session)) == tick_spec(
                    old(self)@,
                    grid_of(*old(matrix)),
                    *old(session),
                    input,
                    d,
                ),
            final(self)@.wf(),
    {
        let draw = if !self.exists && self.exist_delay <= 0 {
            random_below(7)
        } else {
            0
        };
        self.tick_with_draw(matrix, input, session, draw)
    }
}

/// The four cells of the piece.
pub open spec fn piece_cells(p: PieceView) -> Set<(int, int)> {
    set![
        (p.cx, p.cy),
        (p.cx + p.x1, p.cy + p.y1),
        (p.cx + p.x2, p.cy + p.y2),
        (p.cx + p.x3, p.cy + p.y3),
    ]
}

/// Locking a falling piece writes exactly four cells, the cells of the
/// piece, each with the piece's type plus one, and leaves every other cell as
/// it was. Where the piece passed the collision test at its place, every
/// written cell was empty, so no occupied cell is overwritten.
pub proof fn lemma_lock_writes_four_cells(g: Seq<Seq<u8>>, p: PieceView)
    requires
        p.wf(),
        p.exists,
    ensures
        piece_cells(p).len() == 4,
        forall|c: (int, int)| #[trigger] piece_cells(p).contains(c) ==> in_bounds(c.0, c.1),
        forall|x: int, y: int|
            in_bounds(x, y) ==> #[trigger] locked(g, p)[y][x] == if piece_cells(p).contains(
                (x, y),
            ) {
                (p.otype + 1) as u8
            } else {
                g[y][x]
            },
        fits(g, p, 0, 0) ==> forall|x: int, y: int|
            in_bounds(x, y) && g[y][x] != 0 ==> #[trigger] locked(g, p)[y][x] == g[y][x],
{
    let a = (p.cx, p.cy);
    let b = (p.cx + p.x1, p.cy + p.y1);
    let c = (p.cx + p.x2, p.cy + p.y2);
    let d = (p.cx + p.x3, p.cy + p.y3);
    let s0 = Set::<(int, int)>::empty();
    assert(!s0.insert(a).contains(b));
    assert(!s0.insert(a).insert(b).contains(c));
    assert(!s0.insert(a).insert(b).insert(c).contains(d));
    assert(piece_cells(p) == s0.insert(a).insert(b).insert(c).insert(d));
    assert forall|x: int, y: int| in_bounds(x, y) implies #[trigger] locked(g, p)[y][x] == if piece_cells(
        p,
    ).contains((x, y)) {
        (p.otype + 1) as u8
    } else {
        g[y][x]
    } by {
        assert(piece_cells(p).contains((x, y)) == covers(p, x, y));
    }
}

/// Rotation changes the three offsets and nothing else. Four clockwise
/// quarter turns give back the piece, and a turn one way is undone by a turn
/// the other way.
pub proof fn lemma_rotation_cycle(p: PieceView, g: Seq<Seq<u8>>, r: int)
    ensures
        rotated(p, g, r) == p || rotated(p, g, r) == turned(p, r),
        turned(p, r) == (PieceView {
            x1: turned(p, r).x1,
            y1: turned(p, r).y1,
            x2: turned(p, r).x2,
            y2: turned(p, r).y2,
            x3: turned(p, r).x3,
            y3: turned(p, r).y3,
            ..p
        }),
        turned(turned(turned(turned(p, 1), 1), 1), 1) == p,
        turned(turned(p, 1), -1) == p,
        turned(turned(p, -1), 1) == p,
{
}

proof fn lemma_dropped_stays_free(p: PieceView, g: Seq<Seq<u8>>, n: nat)
    requires
        fits(g, p, 0, 0),
    ensures
        fits(g, dropped(p, g, n), 0, 0),
        dropped(p, g, n).exists == p.exists,
        dropped(p, g, n).dead == p.dead,
    decreases n,
{
    if n > 0 && fits(g, p, 0, 1) {
        lemma_dropped_stays_free(moved(p, 0, 1), g, (n - 1) as nat);
    }
}

/// A tick keeps a falling piece on empty cells: where the piece was falling
/// on empty cells before the tick (or none was falling), any piece falling
/// after it, unless the game is over, lies on empty cells of the new grid.
/// This is the premise under which locking overwrites no occupied cell.
pub proof fn lemma_tick_keeps_piece_on_free_cells(
    p: PieceView,
    g: Seq<Seq<u8>>,
    s: GameSession,
    input: (i8, i8, bool, bool),
    draw: u8,
)
    requires
        p.wf(),
        p.exists && !p.dead ==> fits(g, p, 0, 0),
    ensures
        ({
            let (q, g2, s2) = tick_spec(p, g, s, input, draw);
            q.exists && !q.dead ==> fits(g2, q, 0, 0)
        }),
{
    if p.exists && !p.dead {
        lemma_dropped_stays_free(p, g, 20);
    }
}

/// A move or a rotation that fails the collision test changes nothing: with
/// no repeat delay pending, a horizontal input whose target does not fit
/// leaves the piece as it was, and so does a rotation whose turned piece does
/// not fit.
pub proof fn lemma_blocked_moves_change_nothing(p: PieceView, g: Seq<Seq<u8>>, dx: int, r: int)
    ensures
        p.move_delay == 0 && dx < 0 && !fits(g, p, 1, 0) ==> shifted(p, g, dx) == p,
        p.move_delay == 0 && dx > 0 && !fits(g, p, -1, 0) ==> shifted(p, g, dx) == p,
        !fits(g, turned(p, r), 0, 0) ==> rotated(p, g, r) == p,
{
}

} // verus!

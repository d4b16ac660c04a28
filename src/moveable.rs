//! An actor's position on a grid, and one step of grid-constrained movement.
//!
//! Positions are whole pixels. The cell of a pixel coordinate `p` is
//! `p / CELL_SIZE`. An actor has a square hitbox; its leading edge in the
//! direction of travel lies half the hitbox size (rounded down) ahead of its
//! position.

use vstd::prelude::*;
use vstd::arithmetic::div_mod::{lemma_div_is_ordered, lemma_fundamental_div_mod_converse};
use crate::CELL_SIZE;
use crate::dir::Dir;
use crate::grid::Grid;
use crate::tile::Tile;

verus! {

/// What a step returns: `None` where it went through, `Some(None)` where
/// the grid's edge stopped it, `Some(Some((cell, tile)))` where the
/// impassable tile of `cell` stopped it.
pub type MoveResult = Option<Option<((usize, usize), Tile)>>;

#[derive(Clone, Copy, Debug)]
pub struct Moveable {
    /// Position in pixels.
    pub location: (usize, usize),
    /// The cell the actor stands in.
    pub cell_loc: (usize, usize),
}

/// `p + speed`, saturating at `usize::MAX`.
pub open spec fn forward_target(p: int, speed: int) -> int {
    if p + speed <= usize::MAX {
        p + speed
    } else {
        usize::MAX as int
    }
}

/// `p - speed`, saturating at zero.
pub open spec fn backward_target(p: int, speed: int) -> int {
    if p <= speed {
        0
    } else {
        p - speed
    }
}

/// `first - second`, saturating at zero.
pub fn sub_save(first: usize, second: usize) -> (r: usize)
    ensures
        r == backward_target(first as int, second as int),
{
    if first <= second {
        0
    } else {
        first - second
    }
}

/// Moving forward to `np`, the leading edge, `half` ahead, leaves cell `c`.
pub open spec fn crosses_forward(np: int, c: int, half: int) -> bool {
    (np + half) / (CELL_SIZE as int) != c
}

/// Moving backward to `np`, the leading edge, `half` ahead, leaves cell
/// `c` (or the grid).
pub open spec fn crosses_backward(np: int, c: int, half: int) -> bool {
    np < half || (np - half) / (CELL_SIZE as int) != c
}

/// One step along an axis toward larger coordinates, from position `p` in
/// cell `c`, for a hitbox reaching `half` ahead of the position, where
/// `next` is what lies in the neighbouring cell: the new
/// position, the new cell, and what the step returns.
pub open spec fn step_forward(p: int, c: int, speed: int, half: int, next: Option<((usize, usize), Tile)>) -> (
    int,
    int,
    MoveResult,
) {
    let np = forward_target(p, speed);
    if !crosses_forward(np, c, half) {
        (np, c, None)
    } else {
        match next {
            None => (p, c, Some(None)),
            Some(n) => if !n.1.can_move {
                (c * (CELL_SIZE as int) + (CELL_SIZE as int) - half, c, Some(Some(n)))
            } else {
                (np, np / (CELL_SIZE as int), None)
            },
        }
    }
}

/// One step along an axis toward smaller coordinates; as `step_forward`.
pub open spec fn step_backward(p: int, c: int, speed: int, half: int, next: Option<((usize, usize), Tile)>) -> (
    int,
    int,
    MoveResult,
) {
    let np = backward_target(p, speed);
    if !crosses_backward(np, c, half) {
        (np, c, None)
    } else if c == 0 {
        (p, c, Some(None))
    } else {
        match next {
            None => (p, c, Some(None)),
            Some(n) => if !n.1.can_move {
                (c * (CELL_SIZE as int) + half, c, Some(Some(n)))
            } else {
                (np, np / (CELL_SIZE as int), None)
            },
        }
    }
}

impl Moveable {
    /// The cell is the one the position lies in.
    pub open spec fn in_sync(&self) -> bool {
        &&& self.cell_loc.0 == self.location.0 / CELL_SIZE
        &&& self.cell_loc.1 == self.location.1 / CELL_SIZE
    }

    /// A hitbox of `size` around the position lies inside the cell.
    pub open spec fn fits_in_cell(&self, size: int) -> bool {
        &&& self.cell_loc.0 * CELL_SIZE + size / 2 <= self.location.0
        &&& self.location.0 + size / 2 < (self.cell_loc.0 + 1) * CELL_SIZE
        &&& self.cell_loc.1 * CELL_SIZE + size / 2 <= self.location.1
        &&& self.location.1 + size / 2 < (self.cell_loc.1 + 1) * CELL_SIZE
    }

    /// The actor after one step in `dir` at `speed` with a hitbox of
    /// `size`, and what the step returns.
    pub open spec fn move_spec(&self, dir: Dir, speed: int, grid: Grid, size: int) -> (Moveable, MoveResult) {
        let (x, y) = (self.location.0 as int, self.location.1 as int);
        let (cx, cy) = (self.cell_loc.0 as int, self.cell_loc.1 as int);
        match dir {
            Dir::Left => {
                let (p, c, r) = step_backward(x, cx, speed, size / 2, grid.cell_spec(cx - 1, cy));
                (Moveable { location: (p as usize, self.location.1), cell_loc: (c as usize, self.cell_loc.1) }, r)
            },
            Dir::Right => {
                let (p, c, r) = step_forward(x, cx, speed, size / 2, grid.cell_spec(cx + 1, cy));
                (Moveable { location: (p as usize, self.location.1), cell_loc: (c as usize, self.cell_loc.1) }, r)
            },
            Dir::Up => {
                let (p, c, r) = step_backward(y, cy, speed, size / 2, grid.cell_spec(cx, cy - 1));
                (Moveable { location: (self.location.0, p as usize), cell_loc: (self.cell_loc.0, c as usize) }, r)
            },
            Dir::Down => {
                let (p, c, r) = step_forward(y, cy, speed, size / 2, grid.cell_spec(cx, cy + 1));
                (Moveable { location: (self.location.0, p as usize), cell_loc: (self.cell_loc.0, c as usize) }, r)
            },
        }
    }

    /// An actor at `location`, in the cell that holds it.
    pub fn new_not_center(location: (usize, usize)) -> (r: Moveable)
        ensures
            r.location == location,
            r.cell_loc == (location.0 / CELL_SIZE, location.1 / CELL_SIZE),
            r.in_sync(),
    {
        Moveable { cell_loc: (location.0 / CELL_SIZE, location.1 / CELL_SIZE), location }
    }

    /// An actor in the cell that holds `location`, placed half a cell
    /// further along each axis so that it stands centred in the cell whose
    /// corner `location` is.
    pub fn new(location: (usize, usize)) -> (r: Moveable)
        requires
            location.0 + CELL_SIZE / 2 <= usize::MAX,
            location.1 + CELL_SIZE / 2 <= usize::MAX,
        ensures
            r == Moveable::centered_spec(location),
    {
        Moveable {
            cell_loc: (location.0 / CELL_SIZE, location.1 / CELL_SIZE),
            location: (location.0 + CELL_SIZE / 2, location.1 + CELL_SIZE / 2),
        }
    }

    /// The actor that `new` makes from `location`.
    pub open spec fn centered_spec(location: (usize, usize)) -> Moveable {
        Moveable {
            cell_loc: (location.0 / CELL_SIZE, location.1 / CELL_SIZE),
            location: ((location.0 + CELL_SIZE / 2) as usize, (location.1 + CELL_SIZE / 2) as usize),
        }
    }

    /// Places the actor as `new` would.
    pub fn reset_location(&mut self, location: (usize, usize))
        requires
            location.0 + CELL_SIZE / 2 <= usize::MAX,
            location.1 + CELL_SIZE / 2 <= usize::MAX,
        ensures
            *final(self) == Moveable::centered_spec(location),
    {
        *self = Moveable::new(location);
    }

    /// One step in `dir` at `speed` for an actor whose hitbox is
    /// `moveable_size` pixels wide: see `move_spec`. A step whose leading
    /// edge stays in the current cell always goes through; one that leaves
    /// it goes through only into a passable neighbouring cell. Where that
    /// neighbour is impassable the actor is clamped flush against it.
    pub fn move_some(&mut self, dir: Dir, speed: usize, grid: &Grid, moveable_size: usize) -> (r: MoveResult)
        requires
            grid.wf(),
            moveable_size / 2 <= CELL_SIZE,
        ensures
            (*final(self), r) == old(self).move_spec(dir, speed as int, *grid, moveable_size as int),
    {
        let half = moveable_size / 2;
        let (x, y) = self.location;
        let (cx, cy) = self.cell_loc;
        match dir {
            Dir::Left => {
                let next = if cx > 0 { grid.get_cell((cx - 1, cy)) } else { None };
                let (p, c, r) = step_backward_exec(x, cx, speed, half, next, grid);
                self.location = (p, y);
                self.cell_loc = (c, cy);
                r
            },
            Dir::Right => {
                let next = if cx < grid.length { grid.get_cell((cx + 1, cy)) } else { None };
                let (p, c, r) = step_forward_exec(x, cx, speed, half, next, grid);
                self.location = (p, y);
                self.cell_loc = (c, cy);
                r
            },
            Dir::Up => {
                let next = if cy > 0 { grid.get_cell((cx, cy - 1)) } else { None };
                let (p, c, r) = step_backward_exec(y, cy, speed, half, next, grid);
                self.location = (x, p);
                self.cell_loc = (cx, c);
                r
            },
            Dir::Down => {
                let next = if cy < grid.height { grid.get_cell((cx, cy + 1)) } else { None };
                let (p, c, r) = step_forward_exec(y, cy, speed, half, next, grid);
                self.location = (x, p);
                self.cell_loc = (cx, c);
                r
            },
        }
    }
}

/// `step_forward` on machine integers; `half` is half the hitbox size.
fn step_forward_exec(
    p: usize,
    c: usize,
    speed: usize,
    half: usize,
    next: Option<((usize, usize), Tile)>,
    grid: &Grid,
) -> (r: (usize, usize, MoveResult))
    requires
        half <= CELL_SIZE,
        grid.wf(),
        next is Some ==> c + 1 < grid.length || c + 1 < grid.height,
    ensures
        (r.0 as int, r.1 as int, r.2) == step_forward(p as int, c as int, speed as int, half as int, next),
{
    let np = if p <= usize::MAX - speed { p + speed } else { usize::MAX };
    if (np as u128 + half as u128) / (CELL_SIZE as u128) == c as u128 {
        return (np, c, None);
    }
    match next {
        None => (p, c, Some(None)),
        Some(n) => if !n.1.can_move {
            (c * CELL_SIZE + CELL_SIZE - half, c, Some(Some(n)))
        } else {
            (np, np / CELL_SIZE, None)
        },
    }
}

/// `step_backward` on machine integers; `half` is half the hitbox size.
fn step_backward_exec(
    p: usize,
    c: usize,
    speed: usize,
    half: usize,
    next: Option<((usize, usize), Tile)>,
    grid: &Grid,
) -> (r: (usize, usize, MoveResult))
    requires
        half <= CELL_SIZE,
        grid.wf(),
        next is Some ==> c <= grid.length || c <= grid.height,
    ensures
        (r.0 as int, r.1 as int, r.2) == step_backward(p as int, c as int, speed as int, half as int, next),
{
    let np = sub_save(p, speed);
    if np >= half && (np - half) / CELL_SIZE == c {
        return (np, c, None);
    }
    if c == 0 {
        return (p, c, Some(None));
    }
    match next {
        None => (p, c, Some(None)),
        Some(n) => if !n.1.can_move {
            (c * CELL_SIZE + half, c, Some(Some(n)))
        } else {
            (np, np / CELL_SIZE, None)
        },
    }
}

/// A pixel coordinate in `[c * CELL_SIZE, (c + 1) * CELL_SIZE)` lies in cell `c`.
proof fn lemma_in_cell(x: int, c: int)
    requires
        c * (CELL_SIZE as int) <= x < (c + 1) * (CELL_SIZE as int),
    ensures
        x / (CELL_SIZE as int) == c,
{
    lemma_fundamental_div_mod_converse(x, CELL_SIZE as int, c, x - c * (CELL_SIZE as int));
}

/// The step's outcome is a clamp against a wall.
pub open spec fn is_wall_hit(r: MoveResult) -> bool {
    r matches Some(Some(_))
}

/// A step leaves an actor whose cell matched its position with a matching
/// cell, unless a wall stopped it; a wall leaves its cell as it was.
pub proof fn lemma_move_keeps_sync(m: Moveable, dir: Dir, speed: int, grid: Grid, size: int)
    requires
        m.in_sync(),
        0 <= speed,
        0 <= size,
    ensures
        is_wall_hit(m.move_spec(dir, speed, grid, size).1) ==> m.move_spec(dir, speed, grid, size).0.cell_loc
            == m.cell_loc,
        !is_wall_hit(m.move_spec(dir, speed, grid, size).1) ==> m.move_spec(dir, speed, grid, size).0.in_sync(),
{
    let half = size / 2;
    let cs = CELL_SIZE as int;
    let (x, y) = (m.location.0 as int, m.location.1 as int);
    match dir {
        Dir::Left | Dir::Up => {
            let p = if dir == Dir::Left { x } else { y };
            let np = backward_target(p, speed);
            if np >= half {
                lemma_div_is_ordered(np - half, np, cs);
            }
            lemma_div_is_ordered(np, p, cs);
        },
        Dir::Right | Dir::Down => {
            let p = if dir == Dir::Right { x } else { y };
            let np = forward_target(p, speed);
            lemma_div_is_ordered(np, np + half, cs);
            lemma_div_is_ordered(p, np, cs);
        },
    }
}

/// A step at speed zero by an actor whose hitbox lies inside its cell
/// changes nothing and goes through.
pub proof fn lemma_move_zero_speed(m: Moveable, dir: Dir, grid: Grid, size: int)
    requires
        0 <= size,
        m.fits_in_cell(size),
    ensures
        m.move_spec(dir, 0, grid, size).0 == m,
        m.move_spec(dir, 0, grid, size).1 == None::<Option<((usize, usize), Tile)>>,
{
    let half = size / 2;
    let (x, y) = (m.location.0 as int, m.location.1 as int);
    let (cx, cy) = (m.cell_loc.0 as int, m.cell_loc.1 as int);
    lemma_in_cell(x + half, cx);
    lemma_in_cell(x - half, cx);
    lemma_in_cell(y + half, cy);
    lemma_in_cell(y - half, cy);
}

/// An actor in the leftmost column whose step to the left takes its
/// leading edge out of its cell is stopped by the grid's edge and stays
/// where it was.
pub proof fn lemma_move_left_at_edge(m: Moveable, speed: int, grid: Grid, size: int)
    requires
        m.cell_loc.0 == 0,
        crosses_backward(backward_target(m.location.0 as int, speed), 0, size / 2),
    ensures
        m.move_spec(Dir::Left, speed, grid, size).1 == Some(None::<((usize, usize), Tile)>),
        m.move_spec(Dir::Left, speed, grid, size).0 == m,
{
}

/// A forward step of at most one cell, by a hitbox reaching less than a
/// cell ahead, from a position in cell `c` ends in a position that lies in
/// the cell it reports, which is `c` or, where `next` is passable, `c + 1`.
proof fn lemma_step_forward_bounded(p: int, c: int, speed: int, half: int, next: Option<((usize, usize), Tile)>)
    requires
        0 <= p <= usize::MAX,
        c == p / (CELL_SIZE as int),
        0 <= speed <= CELL_SIZE,
        1 <= half < CELL_SIZE,
    ensures
        ({
            let (p2, c2, r) = step_forward(p, c, speed, half, next);
            &&& c2 == p2 / (CELL_SIZE as int)
            &&& c2 == c || (c2 == c + 1 && next is Some && (next->0).1.can_move)
        }),
{
    let cs = CELL_SIZE as int;
    let np = forward_target(p, speed);
    lemma_fundamental_div_mod_converse(p, cs, p / cs, p % cs);
    lemma_in_cell((c + 1) * cs - half, c);
    if np >= (c + 1) * cs {
        lemma_in_cell(np, c + 1);
    } else {
        lemma_div_is_ordered(p, np, cs);
        lemma_div_is_ordered(np, (c + 1) * cs - 1, cs);
        lemma_in_cell((c + 1) * cs - 1, c);
        lemma_div_is_ordered(np, np + half, cs);
    }
}

/// A backward step of at most one cell, by a hitbox reaching less than a
/// cell ahead, from a position in cell `c` ends in a position that lies in
/// the cell it reports, which is `c` or, where `next` is passable, `c - 1`.
proof fn lemma_step_backward_bounded(p: int, c: int, speed: int, half: int, next: Option<((usize, usize), Tile)>)
    requires
        0 <= p <= usize::MAX,
        c == p / (CELL_SIZE as int),
        0 <= speed <= CELL_SIZE,
        1 <= half < CELL_SIZE,
    ensures
        ({
            let (p2, c2, r) = step_backward(p, c, speed, half, next);
            &&& c2 == p2 / (CELL_SIZE as int)
            &&& c2 == c || (c2 == c - 1 && c > 0 && next is Some && (next->0).1.can_move)
        }),
{
    let cs = CELL_SIZE as int;
    let np = backward_target(p, speed);
    lemma_fundamental_div_mod_converse(p, cs, p / cs, p % cs);
    lemma_in_cell(c * cs + half, c);
    lemma_div_is_ordered(np, p, cs);
    if np >= half {
        lemma_div_is_ordered(np - half, np, cs);
    }
    if c > 0 && np >= (c - 1) * cs && np < c * cs {
        lemma_in_cell(np, c - 1);
    }
    if np >= c * cs {
        lemma_div_is_ordered(c * cs, np, cs);
        lemma_in_cell(c * cs, c);
    }
    if np < (c - 1) * cs {
        assert(false);
    }
}

/// What `lemma_move_stays_on_grid` states, for one direction.
pub open spec fn stays_on_grid(m: Moveable, dir: Dir, speed: int, grid: Grid, size: int) -> bool {
    let m2 = m.move_spec(dir, speed, grid, size).0;
    m2.in_sync() && grid.passable(m2.cell_loc.0 as int, m2.cell_loc.1 as int)
}

proof fn lemma_stays_horizontal(m: Moveable, dir: Dir, speed: int, grid: Grid, size: int)
    requires
        dir == Dir::Left || dir == Dir::Right,
        m.in_sync(),
        grid.passable(m.cell_loc.0 as int, m.cell_loc.1 as int),
        0 <= speed <= CELL_SIZE,
        1 <= size / 2 < CELL_SIZE,
    ensures
        stays_on_grid(m, dir, speed, grid, size),
{
    let half = size / 2;
    let (x, cx, cy) = (m.location.0 as int, m.cell_loc.0 as int, m.cell_loc.1 as int);
    if dir == Dir::Left {
        lemma_step_backward_bounded(x, cx, speed, half, grid.cell_spec(cx - 1, cy));
    } else {
        lemma_step_forward_bounded(x, cx, speed, half, grid.cell_spec(cx + 1, cy));
    }
}

proof fn lemma_stays_vertical(m: Moveable, dir: Dir, speed: int, grid: Grid, size: int)
    requires
        dir == Dir::Up || dir == Dir::Down,
        m.in_sync(),
        grid.passable(m.cell_loc.0 as int, m.cell_loc.1 as int),
        0 <= speed <= CELL_SIZE,
        1 <= size / 2 < CELL_SIZE,
    ensures
        stays_on_grid(m, dir, speed, grid, size),
{
    let half = size / 2;
    let (y, cx, cy) = (m.location.1 as int, m.cell_loc.0 as int, m.cell_loc.1 as int);
    if dir == Dir::Up {
        lemma_step_backward_bounded(y, cy, speed, half, grid.cell_spec(cx, cy - 1));
    } else {
        lemma_step_forward_bounded(y, cy, speed, half, grid.cell_spec(cx, cy + 1));
    }
}

/// An actor whose hitbox reaches less than a cell beyond its position,
/// standing on a passable cell that matches its position, stays on a
/// passable cell that matches its position after a step of at most one
/// cell: it never ends outside the grid or inside a wall.
pub proof fn lemma_move_stays_on_grid(m: Moveable, dir: Dir, speed: int, grid: Grid, size: int)
    requires
        m.in_sync(),
        grid.passable(m.cell_loc.0 as int, m.cell_loc.1 as int),
        0 <= speed <= CELL_SIZE,
        1 <= size / 2 < CELL_SIZE,
    ensures
        stays_on_grid(m, dir, speed, grid, size),
{
    if dir == Dir::Left || dir == Dir::Right {
        lemma_stays_horizontal(m, dir, speed, grid, size);
    } else {
        lemma_stays_vertical(m, dir, speed, grid, size);
    }
}

} // verus!

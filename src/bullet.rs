//! Bullets: actors that step through a fixed pattern of directions each
//! tick until they hit a wall or the grid's edge.

use vstd::prelude::*;
use crate::CELL_SIZE;
use crate::dir::{dir_code, Dir};
use crate::grid::Grid;
use crate::moveable::{lemma_move_stays_on_grid, Moveable};

verus! {

/// Side length of a bullet's hitbox, in pixels.
pub const BULLET_SIZE: usize = 20;

/// The absolute direction of relative direction `v` (`0` forward, `1`
/// right, `2` back, `3` left) for a shot fired facing `facing`. The
/// difference of the two direction numbers is brought into `0..4` where it
/// lies within four of that range; what is still outside it counts as
/// `Right`.
pub open spec fn pattern_dir(facing: Dir, v: i8) -> Dir {
    let t = dir_code(facing) - v;
    let w = if t < 0 {
        t + 4
    } else if t > 3 {
        t - 4
    } else {
        t
    };
    if w == 0 {
        Dir::Up
    } else if w == 1 {
        Dir::Left
    } else if w == 2 {
        Dir::Down
    } else {
        Dir::Right
    }
}

/// Stepping `m` through `dirs` at `speed` with a hitbox of `size`, stopping
/// at the first step that a wall or the grid's edge stops: where the actor
/// ends, and whether something stopped it.
pub open spec fn follow_pattern(m: Moveable, dirs: Seq<Dir>, speed: int, grid: Grid, size: int) -> (Moveable, bool)
    decreases dirs.len(),
{
    if dirs.len() == 0 {
        (m, false)
    } else {
        let (m1, r) = m.move_spec(dirs[0], speed, grid, size);
        if r is Some {
            (m1, true)
        } else {
            follow_pattern(m1, dirs.drop_first(), speed, grid, size)
        }
    }
}

pub struct Bullet {
    pub location: Moveable,
    /// Pixels per step.
    pub speed: usize,
    /// The directions the bullet steps through each tick.
    pub pattern: Vec<Dir>,
    /// Side length of the hitbox, in pixels.
    pub size: usize,
    pub damage: isize,
}

impl Bullet {
    /// The bullet's hitbox fits its movement.
    pub open spec fn wf(&self) -> bool {
        self.size / 2 <= CELL_SIZE
    }

    /// The bullet is the one `new_with_pattern` fires from `location` at
    /// `speed` while facing `dir`, with relative pattern `pattern`.
    pub open spec fn fired_from(&self, location: (usize, usize), speed: usize, dir: Dir, pattern: Seq<i8>, damage: isize) -> bool {
        &&& self.location.location == location
        &&& self.location.cell_loc == (location.0 / CELL_SIZE, location.1 / CELL_SIZE)
        &&& self.speed == speed
        &&& self.size == BULLET_SIZE
        &&& self.damage == damage
        &&& self.pattern@.len() == pattern.len()
        &&& forall|i: int| 0 <= i < pattern.len() ==> self.pattern@[i] == pattern_dir(dir, #[trigger] pattern[i])
    }

    /// A bullet fired from `location` while facing `dir`, whose pattern
    /// turns each relative direction of `pattern` into an absolute one.
    pub fn new_with_pattern(location: (usize, usize), speed: usize, dir: Dir, pattern: &Vec<i8>, damage: isize) -> (r: Bullet)
        ensures
            r.wf(),
            r.fired_from(location, speed, dir, pattern@, damage),
            r.location.location == location,
            r.location.in_sync(),
            r.speed == speed,
            r.size == BULLET_SIZE,
            r.damage == damage,
            r.pattern@.len() == pattern@.len(),
            forall|i: int| 0 <= i < pattern@.len() ==> r.pattern@[i] == pattern_dir(dir, #[trigger] pattern@[i]),
    {
        let d = dir.code() as i16;
        let mut dirs: Vec<Dir> = Vec::new();
        let mut i: usize = 0;
        while i < pattern.len()
            invariant
                d == dir_code(dir),
                i <= pattern@.len(),
                dirs@.len() == i,
                forall|j: int| 0 <= j < i ==> dirs@[j] == pattern_dir(dir, #[trigger] pattern@[j]),
            decreases pattern@.len() - i,
        {
            let t = d - pattern[i] as i16;
            let w = if t < 0 {
                t + 4
            } else if t > 3 {
                t - 4
            } else {
                t
            };
            let next = if w == 0 {
                Dir::Up
            } else if w == 1 {
                Dir::Left
            } else if w == 2 {
                Dir::Down
            } else {
                Dir::Right
            };
            dirs.push(next);
            i += 1;
        }
        Bullet { location: Moveable::new_not_center(location), speed, pattern: dirs, size: BULLET_SIZE, damage }
    }

    /// Steps the bullet through its pattern; says whether a wall or the
    /// grid's edge stopped it, in which case it should be removed.
    pub fn update(&mut self, grid: &Grid) -> (r: bool)
        requires
            old(self).wf(),
            grid.wf(),
        ensures
            (final(self).location, r) == follow_pattern(
                old(self).location,
                old(self).pattern@,
                old(self).speed as int,
                *grid,
                old(self).size as int,
            ),
            final(self).speed == old(self).speed,
            final(self).pattern == old(self).pattern,
            final(self).size == old(self).size,
            final(self).damage == old(self).damage,
    {
        let mut i: usize = 0;
        assert(self.pattern@.subrange(0, self.pattern@.len() as int) =~= self.pattern@);
        while i < self.pattern.len()
            invariant
                self.wf(),
                grid.wf(),
                i <= self.pattern@.len(),
                self.speed == old(self).speed,
                self.pattern == old(self).pattern,
                self.size == old(self).size,
                self.damage == old(self).damage,
                follow_pattern(
                    old(self).location,
                    old(self).pattern@,
                    old(self).speed as int,
                    *grid,
                    old(self).size as int,
                ) == follow_pattern(
                    self.location,
                    self.pattern@.subrange(i as int, self.pattern@.len() as int),
                    self.speed as int,
                    *grid,
                    self.size as int,
                ),
            decreases self.pattern@.len() - i,
        {
            let ghost rest = self.pattern@.subrange(i as int, self.pattern@.len() as int);
            assert(rest.drop_first() =~= self.pattern@.subrange(i + 1, self.pattern@.len() as int));
            let dir = self.pattern[i];
            let hit = self.location.move_some(dir, self.speed, grid, self.size);
            if hit.is_some() {
                return true;
            }
            i += 1;
        }
        proof {
            assert(self.pattern@.subrange(i as int, self.pattern@.len() as int).len() == 0);
        }
        false
    }
}

/// A bullet whose hitbox reaches less than a cell beyond its position,
/// standing on a passable cell that matches its position and moving at
/// most one cell per step, is on such a cell after its whole pattern.
pub proof fn lemma_follow_pattern_stays_on_grid(m: Moveable, dirs: Seq<Dir>, speed: int, grid: Grid, size: int)
    requires
        m.in_sync(),
        grid.passable(m.cell_loc.0 as int, m.cell_loc.1 as int),
        0 <= speed <= CELL_SIZE,
        1 <= size / 2 < CELL_SIZE,
    ensures
        follow_pattern(m, dirs, speed, grid, size).0.in_sync(),
        grid.passable(
            follow_pattern(m, dirs, speed, grid, size).0.cell_loc.0 as int,
            follow_pattern(m, dirs, speed, grid, size).0.cell_loc.1 as int,
        ),
    decreases dirs.len(),
{
    if dirs.len() > 0 {
        lemma_move_stays_on_grid(m, dirs[0], speed, grid, size);
        let m1 = m.move_spec(dirs[0], speed, grid, size).0;
        lemma_follow_pattern_stays_on_grid(m1, dirs.drop_first(), speed, grid, size);
    }
}

} // verus!

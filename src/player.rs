//! The player: movement from held keys, aiming, weapon selection, pickups
//! and firing.

use vstd::prelude::*;
use crate::{CELL_SIZE, PLAYER_SIZE};
use crate::dir::Dir;
use crate::grid::{cell_index, Grid};
use crate::gun::Gun;
use crate::moveable::{lemma_move_stays_on_grid, Moveable};
use crate::tile::Tile;

verus! {

/// Width of the visible screen, in pixels.
pub const SCREEN_WIDTH: usize = 800;

/// Height of the visible screen, in pixels.
pub const SCREEN_HEIGHT: usize = 600;

/// Largest number of guns the player carries; picking up one more drops
/// the oldest.
pub const MAX_GUNS: usize = 4;

/// Points for picking up a gun.
pub const GUN_POINTS: u64 = 20;

/// What the input gives for one tick: keys held down, and keys that went
/// down this tick.
#[derive(Debug, Clone, Copy, PartialEq, Eq, Structural)]
pub struct Controls {
    pub move_left: bool,
    pub move_right: bool,
    pub move_up: bool,
    pub move_down: bool,
    pub aim_up: bool,
    pub aim_down: bool,
    pub aim_left: bool,
    pub aim_right: bool,
    /// Went down this tick: select the previous gun.
    pub prev_gun: bool,
    /// Went down this tick: select the next gun.
    pub next_gun: bool,
    pub shoot: bool,
}

/// What the player did in a tick.
#[derive(Clone, Debug)]
pub enum Action {
    Shoot(Gun),
    NextScreen,
    Nothing,
}

/// The first cell to draw along an axis, given the cell `cam` the camera
/// is in and how many cells fit on the screen along it.
pub open spec fn calc_start_spec(cam: int, line_size: int) -> int {
    let halved = line_size / 2;
    if cam < halved || cam == 1 {
        0
    } else if cam - halved <= 1 {
        0
    } else {
        cam - halved - 1
    }
}

/// The first cell to draw along an axis (see `calc_start_spec`).
pub fn calc_start(cam: usize, line_size: usize) -> (r: usize)
    ensures
        r == calc_start_spec(cam as int, line_size as int),
{
    let halved = line_size / 2;
    if cam < halved || cam == 1 {
        0
    } else {
        let calced = cam - halved;
        if calced <= 1 {
            0
        } else {
            calced - 1
        }
    }
}

/// Where an actor ends after the moves that `c` holds, in the order left,
/// right, up, down.
pub open spec fn moved_by(m: Moveable, c: Controls, speed: int, grid: Grid) -> Moveable {
    let m1 = step_if(m, c.move_left, Dir::Left, speed, grid);
    let m2 = step_if(m1, c.move_right, Dir::Right, speed, grid);
    let m3 = step_if(m2, c.move_up, Dir::Up, speed, grid);
    step_if(m3, c.move_down, Dir::Down, speed, grid)
}

/// Where a player-sized actor ends after a step in `dir` where `held`,
/// and where it was otherwise.
pub open spec fn step_if(m: Moveable, held: bool, dir: Dir, speed: int, grid: Grid) -> Moveable {
    if held {
        m.move_spec(dir, speed, grid, PLAYER_SIZE as int).0
    } else {
        m
    }
}

/// A player-sized step in `dir` where `held`.
fn step_if_held(m: &mut Moveable, held: bool, dir: Dir, speed: usize, grid: &Grid)
    requires
        grid.wf(),
    ensures
        *final(m) == step_if(*old(m), held, dir, speed as int, *grid),
{
    if held {
        m.move_some(dir, speed, grid, PLAYER_SIZE);
    }
}

/// The facing after the aim keys of `c`: right over left over down over up.
pub open spec fn aimed(d: Dir, c: Controls) -> Dir {
    if c.aim_right {
        Dir::Right
    } else if c.aim_left {
        Dir::Left
    } else if c.aim_down {
        Dir::Down
    } else if c.aim_up {
        Dir::Up
    } else {
        d
    }
}

/// The selected gun after the selection keys of `c`, among `n` guns:
/// previous first, then next, each wrapping around.
pub open spec fn selected_after(s: int, n: int, c: Controls) -> int {
    let s1 = if c.prev_gun {
        if s == 0 {
            n - 1
        } else {
            s - 1
        }
    } else {
        s
    };
    if c.next_gun {
        if s1 == n - 1 {
            0
        } else {
            s1 + 1
        }
    } else {
        s1
    }
}

#[derive(Clone)]
pub struct Player {
    pub location: Moveable,
    /// Pixels per step.
    pub speed: usize,
    /// The facing, which shots take as forward.
    pub dir: Dir,
    pub health: isize,
    /// Ticks left in which monsters cannot hurt the player.
    pub invis_timer: usize,
    pub guns: Vec<Gun>,
    pub selected_gun: usize,
    /// Ticks left before the player can shoot again.
    pub shoot_timer: usize,
}

impl Player {
    /// The player carries at least one gun and at most `MAX_GUNS`, and one
    /// of them is selected.
    pub open spec fn wf(&self) -> bool {
        &&& 1 <= self.guns@.len() <= MAX_GUNS
        &&& self.selected_gun < self.guns@.len()
    }

    /// The corners of the rectangle of cells to draw around the player.
    pub fn get_outer_cell_points(&self) -> (r: ((usize, usize), (usize, usize)))
        ensures
            r.0.0 == calc_start_spec(
                (self.location.location.0 / CELL_SIZE) as int,
                (SCREEN_WIDTH / CELL_SIZE) as int,
            ),
            r.0.1 == calc_start_spec(
                (self.location.location.1 / CELL_SIZE) as int,
                (SCREEN_HEIGHT / CELL_SIZE) as int,
            ),
            r.1.0 == 1 + r.0.0 + SCREEN_WIDTH,
            r.1.1 == 1 + r.0.1 + SCREEN_HEIGHT,
    {
        let start_x = calc_start(self.location.location.0 / CELL_SIZE, SCREEN_WIDTH / CELL_SIZE);
        let start_y = calc_start(self.location.location.1 / CELL_SIZE, SCREEN_HEIGHT / CELL_SIZE);
        ((start_x, start_y), (1 + start_x + SCREEN_WIDTH, 1 + start_y + SCREEN_HEIGHT))
    }

    /// A player centred in cell `loc`, facing up, with full health, a
    /// short spell of invulnerability and two random guns.
    pub fn new(loc: (usize, usize), rng: &mut rand::rngs::StdRng) -> (r: Player)
        requires
            loc.0 * CELL_SIZE + CELL_SIZE / 2 <= usize::MAX,
            loc.1 * CELL_SIZE + CELL_SIZE / 2 <= usize::MAX,
        ensures
            r.wf(),
            r.location == Moveable::centered_spec(((loc.0 * CELL_SIZE) as usize, (loc.1 * CELL_SIZE) as usize)),
            r.speed == 10,
            r.dir == Dir::Up,
            r.health == 100,
            r.invis_timer == 30,
            r.guns@.len() == 2,
            r.selected_gun == 0,
            r.shoot_timer == 0,
    {
        let mut guns: Vec<Gun> = Vec::new();
        guns.push(Gun::new_random(rng));
        guns.push(Gun::new_random(rng));
        Player {
            location: Moveable::new((loc.0 * CELL_SIZE, loc.1 * CELL_SIZE)),
            speed: 10,
            dir: Dir::Up,
            health: 100,
            invis_timer: 30,
            guns,
            selected_gun: 0,
            shoot_timer: 0,
        }
    }

    /// Places the player as `Moveable::new` would.
    pub fn reset_location(&mut self, location: (usize, usize))
        requires
            location.0 + CELL_SIZE / 2 <= usize::MAX,
            location.1 + CELL_SIZE / 2 <= usize::MAX,
        ensures
            final(self).location == Moveable::centered_spec(location),
            final(self).speed == old(self).speed,
            final(self).dir == old(self).dir,
            final(self).health == old(self).health,
            final(self).invis_timer == old(self).invis_timer,
            final(self).guns == old(self).guns,
            final(self).selected_gun == old(self).selected_gun,
            final(self).shoot_timer == old(self).shoot_timer,
    {
        self.location.reset_location(location);
    }

    /// One tick of the player: moves by the held keys, turns by the aim
    /// keys, changes the selected gun, counts the shot timer down, picks up
    /// the gun of the cell it ends in (for points), and then leaves the
    /// level where that cell is the end, or else shoots the selected gun
    /// where the shoot key is held and the timer has run out.
    pub fn update(&mut self, controls: &Controls, grid: &mut Grid, rng: &mut rand::rngs::StdRng) -> (r: (
        u64,
        Action,
    ))
        requires
            old(self).wf(),
            old(grid).wf(),
        ensures
            final(self).wf(),
            final(grid).wf(),
            final(grid).length == old(grid).length,
            final(grid).height == old(grid).height,
            final(grid).start == old(grid).start,
            final(self).location == moved_by(old(self).location, *controls, old(self).speed as int, *old(grid)),
            final(self).dir == aimed(old(self).dir, *controls),
            final(self).selected_gun == selected_after(
                old(self).selected_gun as int,
                old(self).guns@.len() as int,
                *controls,
            ),
            final(self).speed == old(self).speed,
            final(self).health == old(self).health,
            final(self).invis_timer == old(self).invis_timer,
            ({
                let cell = final(self).location.cell_loc;
                let on_grid = old(grid).in_bounds(cell.0 as int, cell.1 as int);
                let tile = old(grid).tile_at(cell.0 as int, cell.1 as int);
                let picked = on_grid && tile.has_gun;
                let timer = if old(self).shoot_timer > 0 {
                    old(self).shoot_timer - 1
                } else {
                    0
                };
                &&& r.0 == if picked {
                    GUN_POINTS
                } else {
                    0
                }
                &&& on_grid ==> final(grid).tiles@ == old(grid).tiles@.update(
                    cell_index(cell.0 as int, cell.1 as int, old(grid).length as int),
                    Tile { has_gun: false, ..tile },
                )
                &&& !on_grid ==> final(grid).tiles@ == old(grid).tiles@
                &&& !picked ==> final(self).guns@ == old(self).guns@
                &&& picked ==> final(self).guns@.drop_last() == if old(self).guns@.len() == MAX_GUNS {
                    old(self).guns@.drop_first()
                } else {
                    old(self).guns@
                }
                &&& picked ==> final(self).guns@.len() >= 1 && Tile::found_gun(final(self).guns@.last())
                &&& (on_grid && tile.is_end) ==> r.1 is NextScreen && final(self).shoot_timer == timer
                &&& !(on_grid && tile.is_end) && controls.shoot && timer == 0 ==> {
                    &&& r.1 matches Action::Shoot(g)
                    &&& g.same_as(&final(self).guns@[final(self).selected_gun as int])
                    &&& final(self).shoot_timer == g.cooldown
                }
                &&& !(on_grid && tile.is_end) && !(controls.shoot && timer == 0) ==> r.1 is Nothing
                    && final(self).shoot_timer == timer
            }),
    {
        self.steer(controls, grid);
        let current = grid.get_cell(self.location.cell_loc);
        if self.shoot_timer > 0 {
            self.shoot_timer -= 1;
        }
        let extra_points = self.pick_up(grid, rng);
        let at_end = match &current {
            Some(c) => c.1.is_end,
            None => false,
        };
        let action = self.act(controls, at_end);
        (extra_points, action)
    }

    /// Moves by the held keys, turns by the aim keys and changes the
    /// selected gun.
    fn steer(&mut self, controls: &Controls, grid: &Grid)
        requires
            old(self).wf(),
            grid.wf(),
        ensures
            final(self).wf(),
            final(self).location == moved_by(old(self).location, *controls, old(self).speed as int, *grid),
            final(self).dir == aimed(old(self).dir, *controls),
            final(self).selected_gun == selected_after(
                old(self).selected_gun as int,
                old(self).guns@.len() as int,
                *controls,
            ),
            final(self).speed == old(self).speed,
            final(self).health == old(self).health,
            final(self).invis_timer == old(self).invis_timer,
            final(self).guns == old(self).guns,
            final(self).shoot_timer == old(self).shoot_timer,
    {
        step_if_held(&mut self.location, controls.move_left, Dir::Left, self.speed, grid);
        step_if_held(&mut self.location, controls.move_right, Dir::Right, self.speed, grid);
        step_if_held(&mut self.location, controls.move_up, Dir::Up, self.speed, grid);
        step_if_held(&mut self.location, controls.move_down, Dir::Down, self.speed, grid);
        if controls.aim_up {
            self.dir = Dir::Up;
        }
        if controls.aim_down {
            self.dir = Dir::Down;
        }
        if controls.aim_left {
            self.dir = Dir::Left;
        }
        if controls.aim_right {
            self.dir = Dir::Right;
        }
        if controls.prev_gun {
            if self.selected_gun == 0 {
                self.selected_gun = self.guns.len() - 1;
            } else {
                self.selected_gun -= 1;
            }
        }
        if controls.next_gun {
            if self.selected_gun == self.guns.len() - 1 {
                self.selected_gun = 0;
            } else {
                self.selected_gun += 1;
            }
        }
    }

    /// Takes the gun of the player's cell, if it holds one, dropping the
    /// oldest gun beyond `MAX_GUNS`; returns the points for it.
    fn pick_up(&mut self, grid: &mut Grid, rng: &mut rand::rngs::StdRng) -> (r: u64)
        requires
            old(self).wf(),
            old(grid).wf(),
        ensures
            final(self).wf(),
            final(grid).wf(),
            final(grid).length == old(grid).length,
            final(grid).height == old(grid).height,
            final(grid).start == old(grid).start,
            final(self).location == old(self).location,
            final(self).dir == old(self).dir,
            final(self).selected_gun == old(self).selected_gun,
            final(self).speed == old(self).speed,
            final(self).health == old(self).health,
            final(self).invis_timer == old(self).invis_timer,
            final(self).shoot_timer == old(self).shoot_timer,
            ({
                let cell = old(self).location.cell_loc;
                let on_grid = old(grid).in_bounds(cell.0 as int, cell.1 as int);
                let tile = old(grid).tile_at(cell.0 as int, cell.1 as int);
                let picked = on_grid && tile.has_gun;
                &&& r == if picked {
                    GUN_POINTS
                } else {
                    0
                }
                &&& on_grid ==> final(grid).tiles@ == old(grid).tiles@.update(
                    cell_index(cell.0 as int, cell.1 as int, old(grid).length as int),
                    Tile { has_gun: false, ..tile },
                )
                &&& !on_grid ==> final(grid).tiles@ == old(grid).tiles@
                &&& !picked ==> final(self).guns@ == old(self).guns@
                &&& picked ==> final(self).guns@.drop_last() == if old(self).guns@.len() == MAX_GUNS {
                    old(self).guns@.drop_first()
                } else {
                    old(self).guns@
                }
                &&& picked ==> final(self).guns@.len() >= 1 && Tile::found_gun(final(self).guns@.last())
            }),
    {
        let gun = grid.get_gun(&self.location.cell_loc, rng);
        match gun {
            Some(gun) => {
                self.guns.push(gun);
                if self.guns.len() > MAX_GUNS {
                    self.guns.remove(0);
                }
                GUN_POINTS
            },
            None => 0,
        }
    }

    /// Leaves the level where the player stands on the end, or else shoots
    /// the selected gun where the shoot key is held and the timer has run
    /// out, restarting the timer from the gun's cooldown.
    fn act(&mut self, controls: &Controls, at_end: bool) -> (r: Action)
        requires
            old(self).wf(),
        ensures
            final(self).wf(),
            final(self).location == old(self).location,
            final(self).dir == old(self).dir,
            final(self).selected_gun == old(self).selected_gun,
            final(self).speed == old(self).speed,
            final(self).health == old(self).health,
            final(self).invis_timer == old(self).invis_timer,
            final(self).guns == old(self).guns,
            at_end ==> r is NextScreen && final(self).shoot_timer == old(self).shoot_timer,
            !at_end && controls.shoot && old(self).shoot_timer == 0 ==> {
                &&& r matches Action::Shoot(g)
                &&& g.same_as(&old(self).guns@[old(self).selected_gun as int])
                &&& final(self).shoot_timer == g.cooldown
            },
            !at_end && !(controls.shoot && old(self).shoot_timer == 0) ==> r is Nothing
                && final(self).shoot_timer == old(self).shoot_timer,
    {
        if at_end {
            return Action::NextScreen;
        }
        if controls.shoot && self.shoot_timer == 0 {
            let selected_gun = self.guns[self.selected_gun].duplicate();
            self.shoot_timer = selected_gun.cooldown;
            return Action::Shoot(selected_gun);
        }
        Action::Nothing
    }
}

/// A player standing on a passable cell that matches its position, moving
/// at most one cell per step, stays on such a cell after the moves of a
/// tick, whatever keys are held.
pub proof fn lemma_moved_by_stays_on_grid(m: Moveable, c: Controls, speed: int, grid: Grid)
    requires
        m.in_sync(),
        grid.passable(m.cell_loc.0 as int, m.cell_loc.1 as int),
        0 <= speed <= CELL_SIZE,
    ensures
        moved_by(m, c, speed, grid).in_sync(),
        grid.passable(moved_by(m, c, speed, grid).cell_loc.0 as int, moved_by(m, c, speed, grid).cell_loc.1 as int),
{
    let size = PLAYER_SIZE as int;
    if c.move_left {
        lemma_move_stays_on_grid(m, Dir::Left, speed, grid, size);
    }
    let m1 = step_if(m, c.move_left, Dir::Left, speed, grid);
    if c.move_right {
        lemma_move_stays_on_grid(m1, Dir::Right, speed, grid, size);
    }
    let m2 = step_if(m1, c.move_right, Dir::Right, speed, grid);
    if c.move_up {
        lemma_move_stays_on_grid(m2, Dir::Up, speed, grid, size);
    }
    let m3 = step_if(m2, c.move_up, Dir::Up, speed, grid);
    if c.move_down {
        lemma_move_stays_on_grid(m3, Dir::Down, speed, grid, size);
    }
}

} // verus!

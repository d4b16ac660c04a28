//! Monsters: polarity-dependent health, damage with a cooldown, and a
//! crude pursuit of the player.

use vstd::prelude::*;
use crate::CELL_SIZE;
use crate::dir::Dir;
use crate::grid::Grid;
use crate::moveable::Moveable;
use crate::player::Player;
use crate::random::random_range;

verus! {

/// Side length of a monster's hitbox, in pixels.
pub const MONSTER_SIZE: usize = 15;

/// Pixels a monster moves per tick.
pub const MONSTER_SPEED: usize = 5;

/// Health a monster takes from the player on contact.
pub const MONSTER_DAMAGE: isize = 5;

/// Ticks after a hit during which a monster takes no damage.
pub const DAMAGE_COOLDOWN: usize = 20;

/// Bound past which damage of the sign that heals a monster no longer
/// applies: `12` above zero for a positive monster, `-12` for a negative one.
pub const HEAL_LIMIT: isize = 12;

/// Chance, in percent, that a monster moves in a random direction rather
/// than toward the player.
pub const RANDOM_MOVE_PERCENT: usize = 30;

/// `h - d`, saturating at the bounds of `isize`.
pub open spec fn sat_sub(h: int, d: int) -> int {
    if h - d > isize::MAX {
        isize::MAX as int
    } else if h - d < isize::MIN {
        isize::MIN as int
    } else {
        h - d
    }
}

/// `health - damage`, saturating at the bounds of `isize`.
pub fn health_after(health: isize, damage: isize) -> (r: isize)
    ensures
        r == sat_sub(health as int, damage as int),
{
    if damage < 0 {
        if health > isize::MAX + damage {
            isize::MAX
        } else {
            health - damage
        }
    } else {
        if health < isize::MIN + damage {
            isize::MIN
        } else {
            health - damage
        }
    }
}

/// The direction that brings cell `from` one step closer to cell `to`:
/// along the horizontal axis first; none where the cells are the same.
pub open spec fn pursuit_dir(from: (usize, usize), to: (usize, usize)) -> Option<Dir> {
    if from.0 > to.0 {
        Some(Dir::Left)
    } else if from.0 < to.0 {
        Some(Dir::Right)
    } else if from.1 > to.1 {
        Some(Dir::Up)
    } else if from.1 < to.1 {
        Some(Dir::Down)
    } else {
        None
    }
}

/// The direction of a monster in cell `from` with the player in cell `to`,
/// for a roll in `0..100` and a random direction: the random one where the
/// roll falls under `RANDOM_MOVE_PERCENT` or the cells are the same, and
/// the pursuit direction otherwise.
pub open spec fn chosen_dir(from: (usize, usize), to: (usize, usize), roll: int, random_dir: Dir) -> Dir {
    if roll < RANDOM_MOVE_PERCENT {
        random_dir
    } else {
        match pursuit_dir(from, to) {
            Some(d) => d,
            None => random_dir,
        }
    }
}

pub struct Monster {
    pub location: Moveable,
    /// Side length of the hitbox, in pixels.
    pub size: usize,
    pub health: isize,
    /// Fixed at spawn from the sign of the health: whether the monster
    /// lives while its health is below zero.
    pub started_negative: bool,
    /// Damage dealt to the player on contact.
    pub damage: isize,
    /// Pixels per tick.
    pub speed: usize,
    /// Ticks left in which the monster takes no damage.
    pub damage_cooldown: usize,
}

impl Monster {
    /// The monster's hitbox fits its movement.
    pub open spec fn wf(&self) -> bool {
        self.size / 2 <= CELL_SIZE
    }

    /// Alive: below zero for a negative monster, above zero otherwise.
    pub open spec fn alive_spec(&self) -> bool {
        (self.started_negative && self.health < 0) || (!self.started_negative && self.health > 0)
    }

    /// The monster after damage `damage`. Nothing happens during the
    /// cooldown. Damage that heals (negative on a positive monster,
    /// positive on a negative one) applies only where the health stays
    /// within `HEAL_LIMIT` of zero; other damage always applies. Applied
    /// damage starts the cooldown.
    pub open spec fn after_damage(&self, damage: int) -> Monster {
        let applied = Monster {
            health: sat_sub(self.health as int, damage) as isize,
            damage_cooldown: DAMAGE_COOLDOWN,
            ..*self
        };
        if self.damage_cooldown > 0 {
            *self
        } else if !self.started_negative && damage < 0 {
            if self.health - damage < HEAL_LIMIT {
                applied
            } else {
                *self
            }
        } else if self.started_negative && damage > 0 {
            if self.health - damage > -HEAL_LIMIT {
                applied
            } else {
                *self
            }
        } else {
            applied
        }
    }

    /// The monster after one tick of movement with the player in cell
    /// `player_cell`, for a roll and a random direction (see `step`).
    pub open spec fn stepped(&self, grid: Grid, player_cell: (usize, usize), roll: int, random_dir: Dir) -> Monster {
        Monster {
            location: self.location.move_spec(
                chosen_dir(self.location.cell_loc, player_cell, roll, random_dir),
                self.speed as int,
                grid,
                self.size as int,
            ).0,
            damage_cooldown: if self.damage_cooldown > 0 {
                (self.damage_cooldown - 1) as usize
            } else {
                0
            },
            ..*self
        }
    }

    /// A monster with `health` centred in the cell whose corner is
    /// `location`.
    pub fn spawn(location: (usize, usize), health: isize) -> (r: Monster)
        requires
            location.0 + CELL_SIZE / 2 <= usize::MAX,
            location.1 + CELL_SIZE / 2 <= usize::MAX,
        ensures
            r.wf(),
            r.location == Moveable::centered_spec(location),
            r.size == MONSTER_SIZE,
            r.health == health,
            r.started_negative == (health < 0),
            r.damage == MONSTER_DAMAGE,
            r.speed == MONSTER_SPEED,
            r.damage_cooldown == 0,
    {
        Monster {
            location: Moveable::new(location),
            size: MONSTER_SIZE,
            health,
            damage: MONSTER_DAMAGE,
            speed: MONSTER_SPEED,
            started_negative: health < 0,
            damage_cooldown: 0,
        }
    }

    /// A monster with random health in `-10..10`, as `spawn` makes it.
    pub fn new(location: (usize, usize), rng: &mut rand::rngs::StdRng) -> (r: Monster)
        requires
            location.0 + CELL_SIZE / 2 <= usize::MAX,
            location.1 + CELL_SIZE / 2 <= usize::MAX,
        ensures
            r.wf(),
            r.location == Moveable::centered_spec(location),
            r.size == MONSTER_SIZE,
            -10 <= r.health < 10,
            r.started_negative == (r.health < 0),
            r.damage == MONSTER_DAMAGE,
            r.speed == MONSTER_SPEED,
            r.damage_cooldown == 0,
    {
        let health = random_range(rng, 0, 20) as isize - 10;
        Monster::spawn(location, health)
    }

    /// The direction toward `to` from this monster's cell (see `pursuit_dir`).
    pub fn pursue(&self, to: (usize, usize)) -> (r: Option<Dir>)
        ensures
            r == pursuit_dir(self.location.cell_loc, to),
    {
        let from = self.location.cell_loc;
        if from.0 > to.0 {
            Some(Dir::Left)
        } else if from.0 < to.0 {
            Some(Dir::Right)
        } else if from.1 > to.1 {
            Some(Dir::Up)
        } else if from.1 < to.1 {
            Some(Dir::Down)
        } else {
            None
        }
    }

    /// One tick of movement with the player in cell `player_cell`, for a
    /// roll and a random direction: counts the cooldown down and steps in
    /// the chosen direction (see `chosen_dir`).
    pub fn step(&mut self, grid: &Grid, player_cell: (usize, usize), roll: usize, random_dir: Dir)
        requires
            old(self).wf(),
            grid.wf(),
        ensures
            *final(self) == old(self).stepped(*grid, player_cell, roll as int, random_dir),
            final(self).location == old(self).location.move_spec(
                chosen_dir(old(self).location.cell_loc, player_cell, roll as int, random_dir),
                old(self).speed as int,
                *grid,
                old(self).size as int,
            ).0,
            final(self).damage_cooldown == if old(self).damage_cooldown > 0 {
                old(self).damage_cooldown - 1
            } else {
                0
            },
            final(self).size == old(self).size,
            final(self).health == old(self).health,
            final(self).started_negative == old(self).started_negative,
            final(self).damage == old(self).damage,
            final(self).speed == old(self).speed,
    {
        if self.damage_cooldown > 0 {
            self.damage_cooldown -= 1;
        }
        let dir = if roll < RANDOM_MOVE_PERCENT {
            random_dir
        } else {
            match self.pursue(player_cell) {
                Some(d) => d,
                None => random_dir,
            }
        };
        self.location.move_some(dir, self.speed, grid, self.size);
    }

    /// One tick of movement toward `player`, with a random roll and a
    /// random direction drawn for `step`.
    pub fn move_a_bit(&mut self, grid: &Grid, player: &Player, rng: &mut rand::rngs::StdRng)
        requires
            old(self).wf(),
            grid.wf(),
        ensures
            exists|roll: int, random_dir: Dir|
                0 <= roll < 100 && final(self).location == old(self).location.move_spec(
                    chosen_dir(old(self).location.cell_loc, player.location.cell_loc, roll, random_dir),
                    old(self).speed as int,
                    *grid,
                    old(self).size as int,
                ).0,
            final(self).damage_cooldown == if old(self).damage_cooldown > 0 {
                old(self).damage_cooldown - 1
            } else {
                0
            },
            final(self).size == old(self).size,
            final(self).health == old(self).health,
            final(self).started_negative == old(self).started_negative,
            final(self).damage == old(self).damage,
            final(self).speed == old(self).speed,
    {
        let roll = random_range(rng, 0, 100);
        let random_dir = Dir::random(rng);
        self.step(grid, player.location.cell_loc, roll, random_dir);
    }

    /// Takes damage `damage` (see `after_damage`); says whether the monster
    /// is still alive.
    pub fn get_damage(&mut self, damage: isize) -> (r: bool)
        ensures
            *final(self) == old(self).after_damage(damage as int),
            r == final(self).alive_spec(),
    {
        if self.damage_cooldown > 0 {
            return self.is_alive();
        }
        if !self.started_negative && damage < 0 {
            if self.health < HEAL_LIMIT + damage {
                self.health = self.health - damage;
                self.damage_cooldown = DAMAGE_COOLDOWN;
            }
        } else if self.started_negative && damage > 0 {
            if self.health > damage - HEAL_LIMIT {
                self.health = self.health - damage;
                self.damage_cooldown = DAMAGE_COOLDOWN;
            }
        } else {
            self.health = health_after(self.health, damage);
            self.damage_cooldown = DAMAGE_COOLDOWN;
        }
        self.is_alive()
    }

    /// Whether the monster is alive (see `alive_spec`).
    pub fn is_alive(&self) -> (r: bool)
        ensures
            r == self.alive_spec(),
    {
        (self.started_negative && self.health < 0) || ((!self.started_negative) && self.health > 0)
    }
}

} // verus!

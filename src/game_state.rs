//! One level in play, and the tick that advances it.

use vstd::prelude::*;
use crate::{CELL_SIZE, GRID_SIZE};
use crate::bullet::{follow_pattern, Bullet};
use crate::gun::Gun;
use crate::grid::{cell_index, lemma_cell_index, lemma_index_cell, Grid};
use crate::dir::Dir;
use crate::monster::{health_after, sat_sub, Monster};
use crate::player::{aimed, moved_by, selected_after, Action, Controls, Player, GUN_POINTS};
use crate::random::{choose_item, random_range};

verus! {

/// One monster spawns for each this many spawn cells.
pub const CELLS_PER_MONSTER: usize = 20;

/// Ticks of invulnerability after the player is hit or a level starts.
pub const INVULNERABLE_TICKS: usize = 30;

/// Points for killing a monster.
pub const KILL_POINTS: u64 = 10;

/// What a tick leads to.
#[derive(Debug, Clone, Copy, PartialEq, Eq, Structural)]
pub enum StateAction {
    NextLevel,
    Die,
    Nothing,
}

/// `a + b`, saturating at `u64::MAX`.
pub open spec fn sat_add_u64(a: int, b: int) -> int {
    if a + b > u64::MAX {
        u64::MAX as int
    } else {
        a + b
    }
}

fn add_points(score: u64, points: u64) -> (r: u64)
    ensures
        r == sat_add_u64(score as int, points as int),
{
    if score > u64::MAX - points {
        u64::MAX
    } else {
        score + points
    }
}

/// A cell where a monster may spawn: passable and not the start.
pub open spec fn is_spawn_cell(grid: Grid, x: int, y: int) -> bool {
    grid.passable(x, y) && !grid.tile_at(x, y).is_start
}

/// The cells where monsters may spawn.
pub open spec fn spawn_set(grid: Grid) -> Set<(usize, usize)> {
    Set::new(|c: (usize, usize)| is_spawn_cell(grid, c.0 as int, c.1 as int))
}

/// The cells where monsters may spawn, each once.
pub fn spawn_cells(grid: &Grid) -> (r: Vec<(usize, usize)>)
    requires
        grid.wf(),
    ensures
        forall|c: (usize, usize)| r@.contains(c) <==> is_spawn_cell(*grid, c.0 as int, c.1 as int),
        r@.no_duplicates(),
        r@.len() == spawn_set(*grid).len(),
{
    let mut cells: Vec<(usize, usize)> = Vec::new();
    let mut key: usize = 0;
    while key < grid.tiles.len()
        invariant
            grid.wf(),
            key <= grid.tiles@.len(),
            cells@.no_duplicates(),
            forall|c: (usize, usize)|
                cells@.contains(c) <==> is_spawn_cell(*grid, c.0 as int, c.1 as int) && cell_index(
                    c.0 as int,
                    c.1 as int,
                    grid.length as int,
                ) < key,
        decreases grid.tiles@.len() - key,
    {
        let tile = grid.tiles[key];
        let loc = Grid::calc_pos_from_index(key, grid.length, grid.height);
        let ghost old_cells = cells@;
        proof {
            lemma_index_cell(key as int, grid.length as int, grid.height as int);
        }
        if tile.can_move && !tile.is_start {
            proof {
                if old_cells.contains(loc) {
                    lemma_cell_index(loc.0 as int, loc.1 as int, grid.length as int, grid.height as int);
                }
            }
            cells.push(loc);
            proof {
                assert forall|a: int, b: int| 0 <= a < b < cells@.len() implies cells@[a] != cells@[b] by {
                    if b == old_cells.len() {
                        assert(old_cells.contains(cells@[a]));
                    }
                }
            }
        }
        proof {
            assert forall|c: (usize, usize)|
                cells@.contains(c) <==> is_spawn_cell(*grid, c.0 as int, c.1 as int) && cell_index(
                    c.0 as int,
                    c.1 as int,
                    grid.length as int,
                ) < key + 1 by {
                if is_spawn_cell(*grid, c.0 as int, c.1 as int) {
                    lemma_cell_index(c.0 as int, c.1 as int, grid.length as int, grid.height as int);
                }
                if cells@.contains(c) && !old_cells.contains(c) {
                    let i = choose|i: int| 0 <= i < cells@.len() && cells@[i] == c;
                    assert(i == old_cells.len());
                }
                if old_cells.contains(c) {
                    let i = choose|i: int| 0 <= i < old_cells.len() && old_cells[i] == c;
                    assert(cells@[i] == c);
                }
                if c == loc && tile.can_move && !tile.is_start {
                    assert(cells@[old_cells.len() as int] == c);
                }
            }
        }
        key += 1;
    }
    proof {
        assert forall|c: (usize, usize)| is_spawn_cell(*grid, c.0 as int, c.1 as int) implies cell_index(
            c.0 as int,
            c.1 as int,
            grid.length as int,
        ) < key by {
            lemma_cell_index(c.0 as int, c.1 as int, grid.length as int, grid.height as int);
        }
        assert(cells@.to_set() =~= spawn_set(*grid));
        cells@.unique_seq_to_set();
    }
    cells
}

pub struct GameState {
    pub grid: Grid,
    pub player: Player,
    pub monsters: Vec<Monster>,
    pub bullets: Vec<Bullet>,
    pub score: u64,
}

/// All actors' hitboxes fit their movement.
pub open spec fn actors_wf(monsters: Seq<Monster>, bullets: Seq<Bullet>) -> bool {
    &&& forall|i: int| 0 <= i < monsters.len() ==> (#[trigger] monsters[i]).wf()
    &&& forall|i: int| 0 <= i < bullets.len() ==> (#[trigger] bullets[i]).wf()
}

/// A monster centred in a cell where monsters may spawn.
pub open spec fn spawned_in(m: Monster, grid: Grid) -> bool {
    exists|c: (usize, usize)|
        is_spawn_cell(grid, c.0 as int, c.1 as int) && m.location == crate::moveable::Moveable::centered_spec(
            ((c.0 * CELL_SIZE) as usize, (c.1 * CELL_SIZE) as usize),
        )
}

impl GameState {
    /// A level of `GRID_SIZE` cells square with a player that carries a
    /// gun, and every actor's hitbox fitting its movement.
    pub open spec fn wf(&self) -> bool {
        &&& self.grid.wf()
        &&& self.grid.length == GRID_SIZE
        &&& self.grid.height == GRID_SIZE
        &&& self.grid.in_bounds(self.grid.start.0 as int, self.grid.start.1 as int)
        &&& self.player.wf()
        &&& actors_wf(self.monsters@, self.bullets@)
    }

    /// A generated level and its monsters: one for each `CELLS_PER_MONSTER`
    /// spawn cells, each in a spawn cell drawn at random.
    fn basic_setup(rng: &mut rand::rngs::StdRng) -> (r: (Grid, Vec<Monster>))
        ensures
            r.0.is_generated(),
            r.0.wf(),
            r.0.length == GRID_SIZE,
            r.0.height == GRID_SIZE,
            r.0.in_bounds(r.0.start.0 as int, r.0.start.1 as int),
            forall|i: int| 0 <= i < r.1@.len() ==> (#[trigger] r.1@[i]).wf() && spawned_in(r.1@[i], r.0),
            r.1@.len() == spawn_set(r.0).len() / (CELLS_PER_MONSTER as nat),
    {
        let grid = Grid::new(GRID_SIZE, GRID_SIZE, rng);
        let spawns = spawn_cells(&grid);
        let amount = spawns.len() / CELLS_PER_MONSTER;
        let mut monsters: Vec<Monster> = Vec::new();
        let mut i: usize = 0;
        while i < amount
            invariant
                grid.wf(),
                grid.length == GRID_SIZE,
                grid.height == GRID_SIZE,
                forall|c: (usize, usize)| spawns@.contains(c) <==> is_spawn_cell(grid, c.0 as int, c.1 as int),
                amount == spawns@.len() / (CELLS_PER_MONSTER as nat),
                i <= amount,
                monsters@.len() == i,
                forall|k: int| 0 <= k < monsters@.len() ==> (#[trigger] monsters@[k]).wf() && spawned_in(monsters@[k], grid),
            decreases amount - i,
        {
            if let Some(c) = choose_item(rng, &spawns) {
                let m = Monster::new((c.0 * CELL_SIZE, c.1 * CELL_SIZE), rng);
                monsters.push(m);
                assert(spawned_in(monsters@.last(), grid));
            } else {
                assert(false);
            }
            i += 1;
        }
        (grid, monsters)
    }

    /// A new game: a generated level with its monsters, a player at its
    /// start, no bullets and no score.
    pub fn new(rng: &mut rand::rngs::StdRng) -> (r: GameState)
        ensures
            r.wf(),
            r.grid.is_generated(),
            r.player.location == crate::moveable::Moveable::centered_spec(
                ((r.grid.start.0 * CELL_SIZE) as usize, (r.grid.start.1 * CELL_SIZE) as usize),
            ),
            r.player.health == 100,
            r.player.invis_timer == INVULNERABLE_TICKS,
            forall|i: int| 0 <= i < r.monsters@.len() ==> spawned_in(#[trigger] r.monsters@[i], r.grid),
            r.bullets@.len() == 0,
            r.score == 0,
    {
        let (grid, monsters) = GameState::basic_setup(rng);
        let start = grid.start;
        let mut player = Player::new(start, rng);
        player.invis_timer = INVULNERABLE_TICKS;
        GameState { grid, player, monsters, bullets: Vec::new(), score: 0 }
    }

    /// The next level: a new generated level with its monsters, the player
    /// placed at its start with a fresh spell of invulnerability, and no
    /// bullets. Score, health and guns carry over.
    pub fn reset(&mut self, rng: &mut rand::rngs::StdRng)
        requires
            old(self).wf(),
        ensures
            final(self).wf(),
            final(self).grid.is_generated(),
            final(self).player.location == crate::moveable::Moveable::centered_spec(
                ((final(self).grid.start.0 * CELL_SIZE) as usize, (final(self).grid.start.1 * CELL_SIZE) as usize),
            ),
            final(self).player.invis_timer == INVULNERABLE_TICKS,
            final(self).player.health == old(self).player.health,
            final(self).player.guns == old(self).player.guns,
            final(self).player.selected_gun == old(self).player.selected_gun,
            forall|i: int| 0 <= i < final(self).monsters@.len() ==> spawned_in(#[trigger] final(self).monsters@[i], final(self).grid),
            final(self).bullets@.len() == 0,
            final(self).score == old(self).score,
    {
        let (grid, monsters) = GameState::basic_setup(rng);
        self.grid = grid;
        self.monsters = monsters;
        let start = self.grid.start;
        self.player.reset_location((start.0 * CELL_SIZE, start.1 * CELL_SIZE));
        self.player.invis_timer = INVULNERABLE_TICKS;
        self.bullets = Vec::new();
    }

    /// The cell the player ends a tick in, before anything else moves.
    pub open spec fn player_cell_after(&self, controls: Controls) -> (usize, usize) {
        moved_by(self.player.location, controls, self.player.speed as int, self.grid).cell_loc
    }

    /// The points for the gun the player picks up in a tick.
    pub open spec fn pickup_points(&self, controls: Controls) -> int {
        let c = self.player_cell_after(controls);
        if self.grid.in_bounds(c.0 as int, c.1 as int) && self.grid.tile_at(c.0 as int, c.1 as int).has_gun {
            GUN_POINTS as int
        } else {
            0
        }
    }

    /// The player shoots in a tick: the level goes on, the shoot key is
    /// held and the shot timer has run out.
    pub open spec fn shoots(&self, controls: Controls) -> bool {
        let timer = if self.player.shoot_timer > 0 {
            self.player.shoot_timer - 1
        } else {
            0
        };
        !self.reaches_end(controls) && controls.shoot && timer == 0
    }

    /// `after` is this state after a tick that does not end the level and
    /// returns `r`, where the shot fired the bullets `fired` and the
    /// monsters moved by `draws`. Bullets step (see `advanced`), then the
    /// monster phase runs (see `phase_step`), from the score with the
    /// pickup points added. Death clears monsters and bullets; otherwise
    /// invulnerability counts down by one.
    pub open spec fn tick_ends_in(
        &self,
        after: &GameState,
        r: StateAction,
        controls: Controls,
        fired: Seq<Bullet>,
        draws: Seq<(usize, Dir)>,
    ) -> bool {
        let gun = after.player.guns@[after.player.selected_gun as int];
        let bullets = advanced(self.bullets@ + fired, after.grid);
        let start = MonsterPhase {
            monsters: Seq::empty(),
            health: self.player.health as int,
            invis: self.player.invis_timer as int,
            score: sat_add_u64(self.score as int, self.pickup_points(controls)),
            dead: false,
        };
        let res = monster_phase(
            self.monsters@,
            draws,
            bullets,
            after.grid,
            after.player.location.cell_loc,
            start,
            self.monsters@.len() as int,
        );
        &&& draws.len() == self.monsters@.len()
        &&& rolls_below_100(draws)
        &&& if self.shoots(controls) {
            fired_by(fired, gun, after.player.location.location, after.player.dir)
        } else {
            fired.len() == 0
        }
        &&& after.score == res.score
        &&& after.player.health == res.health
        &&& (r == StateAction::Die <==> res.health <= 0)
        &&& (r == StateAction::Die ==> after.monsters@.len() == 0 && after.bullets@.len() == 0)
        &&& (r == StateAction::Nothing ==> {
            &&& after.monsters@ == res.monsters
            &&& after.bullets@ == bullets
            &&& after.player.invis_timer == if res.invis > 0 {
                res.invis - 1
            } else {
                0
            }
        })
    }

    /// The player ends the tick's moves on the end of the level.
    pub open spec fn reaches_end(&self, controls: Controls) -> bool {
        let c = self.player_cell_after(controls);
        self.grid.in_bounds(c.0 as int, c.1 as int) && self.grid.tile_at(c.0 as int, c.1 as int).is_end
    }

    /// One tick. The player acts first (see `Player::update`); reaching the
    /// end of the level ends the tick at once. A shot adds one bullet per
    /// pattern of the gun. Bullets then step, and those that a wall or the
    /// grid's edge stopped are removed. Each monster then moves, takes the
    /// damage of every bullet in its cell, and is removed, for points, once
    /// dead; a live monster in the player's cell hurts a player that is not
    /// invulnerable. The tick ends in death once the player's health is
    /// gone.
    pub fn update(&mut self, controls: &Controls, rng: &mut rand::rngs::StdRng) -> (r: StateAction)
        requires
            old(self).wf(),
        ensures
            final(self).wf(),
            final(self).grid.length == old(self).grid.length,
            final(self).grid.height == old(self).grid.height,
            final(self).grid.start == old(self).grid.start,
            r == StateAction::NextLevel <==> old(self).reaches_end(*controls),
            r == StateAction::NextLevel ==> final(self).score == sat_add_u64(
                old(self).score as int,
                old(self).pickup_points(*controls),
            ),
            r != StateAction::NextLevel ==> exists|fired: Seq<Bullet>, draws: Seq<(usize, Dir)>|
                #[trigger] old(self).tick_ends_in(&*final(self), r, *controls, fired, draws),
            r == StateAction::NextLevel ==> final(self).monsters@ == old(self).monsters@ && final(self).bullets@
                == old(self).bullets@,
            r == StateAction::Die <==> !old(self).reaches_end(*controls) && final(self).player.health <= 0,
            final(self).player.location == moved_by(
                old(self).player.location,
                *controls,
                old(self).player.speed as int,
                old(self).grid,
            ),
            final(self).player.dir == aimed(old(self).player.dir, *controls),
            final(self).player.selected_gun == selected_after(
                old(self).player.selected_gun as int,
                old(self).player.guns@.len() as int,
                *controls,
            ),
            final(self).player.speed == old(self).player.speed,
    {
        let ghost old_bullets = self.bullets@;
        let (points, action) = self.player.update(controls, &mut self.grid, rng);
        self.score = add_points(self.score, points);
        let ghost shot = action;
        match action {
            Action::Nothing => {},
            Action::NextScreen => {
                return StateAction::NextLevel;
            },
            Action::Shoot(gun) => {
                self.fire(&gun);
                proof {
                    let sel = self.player.guns@[self.player.selected_gun as int];
                    assert(gun.same_as(&sel));
                    assert(fired_by(
                        self.bullets@.subrange(old_bullets.len() as int, self.bullets@.len() as int),
                        sel,
                        self.player.location.location,
                        self.player.dir,
                    ));
                }
            },
        }
        let ghost fired = self.bullets@.subrange(old_bullets.len() as int, self.bullets@.len() as int);
        proof {
            assert(old_bullets + fired =~= self.bullets@);
            if !old(self).shoots(*controls) {
                assert(fired.len() == 0);
            }
        }
        let bullets = self.advance_bullets();
        let ghost before: GameState = *self;
        self.resolve_monsters(&bullets, rng);
        let ghost draws = choose|draws: Seq<(usize, Dir)>|
            draws.len() == before.monsters@.len() && rolls_below_100(draws) && #[trigger] before.phase_ends_in(
                &*self,
                bullets@,
                draws,
            );
        proof {
            let start = MonsterPhase {
                monsters: Seq::empty(),
                health: old(self).player.health as int,
                invis: old(self).player.invis_timer as int,
                score: sat_add_u64(old(self).score as int, old(self).pickup_points(*controls)),
                dead: false,
            };
            assert(before.phase_start() == start);
            assert(before.monsters@ == old(self).monsters@);
        }
        if self.player.health <= 0 {
            self.monsters = Vec::new();
            self.bullets = Vec::new();
            assert(old(self).tick_ends_in(&*self, StateAction::Die, *controls, fired, draws));
            return StateAction::Die;
        }
        if self.player.invis_timer > 0 {
            self.player.invis_timer -= 1;
        }
        self.bullets = bullets;
        assert(old(self).tick_ends_in(&*self, StateAction::Nothing, *controls, fired, draws));
        StateAction::Nothing
    }

    /// Where the monster phase of a tick starts.
    pub open spec fn phase_start(&self) -> MonsterPhase {
        MonsterPhase {
            monsters: Seq::empty(),
            health: self.player.health as int,
            invis: self.player.invis_timer as int,
            score: self.score as int,
            dead: false,
        }
    }

    /// The monster phase of this state with `bullets` in play, for one
    /// draw per monster (see `phase_step`).
    pub open spec fn phase_result(&self, bullets: Seq<Bullet>, draws: Seq<(usize, Dir)>) -> MonsterPhase {
        monster_phase(
            self.monsters@,
            draws,
            bullets,
            self.grid,
            self.player.location.cell_loc,
            self.phase_start(),
            self.monsters@.len() as int,
        )
    }

    /// `after` holds the monsters, player health, invulnerability and score
    /// that the monster phase of this state leaves, for `bullets` and `draws`.
    pub open spec fn phase_ends_in(&self, after: &GameState, bullets: Seq<Bullet>, draws: Seq<(usize, Dir)>) -> bool {
        let res = self.phase_result(bullets, draws);
        &&& after.monsters@ == res.monsters
        &&& after.player.health == res.health
        &&& after.player.invis_timer == res.invis
        &&& after.score == res.score
    }

    /// The monster phase with one draw per monster, a roll and a random
    /// direction (see `phase_step`).
    pub fn resolve_monsters_with(&mut self, bullets: &Vec<Bullet>, draws: &Vec<(usize, Dir)>)
        requires
            old(self).wf(),
            actors_wf(old(self).monsters@, bullets@),
            draws@.len() == old(self).monsters@.len(),
        ensures
            final(self).wf(),
            final(self).grid == old(self).grid,
            final(self).bullets == old(self).bullets,
            final(self).player.location == old(self).player.location,
            final(self).player.dir == old(self).player.dir,
            final(self).player.selected_gun == old(self).player.selected_gun,
            final(self).player.speed == old(self).player.speed,
            final(self).player.guns == old(self).player.guns,
            final(self).player.shoot_timer == old(self).player.shoot_timer,
            old(self).phase_ends_in(&*final(self), bullets@, draws@),
    {
        let mut monsters: Vec<Monster> = Vec::new();
        let mut dead = false;
        let mut i: usize = 0;
        let ghost n = old(self).monsters@.len() as int;
        let ghost p0 = self.player;
        let ghost cell = self.player.location.cell_loc;
        proof {
            assert(old(self).monsters@.subrange(0, n) =~= old(self).monsters@);
        }
        while !dead && i < draws.len()
            invariant
                self.grid == old(self).grid,
                self.bullets == old(self).bullets,
                self.grid.wf(),
                self.player.wf(),
                self.player.location == p0.location,
                self.player.dir == p0.dir,
                self.player.selected_gun == p0.selected_gun,
                self.player.speed == p0.speed,
                self.player.guns == p0.guns,
                self.player.shoot_timer == p0.shoot_timer,
                p0 == old(self).player,
                cell == p0.location.cell_loc,
                n == old(self).monsters@.len(),
                draws@.len() == n,
                i <= n,
                self.monsters@ == old(self).monsters@.subrange(i as int, n),
                actors_wf(old(self).monsters@, bullets@),
                actors_wf(monsters@, self.bullets@),
                ({
                    let st = monster_phase(
                        old(self).monsters@,
                        draws@,
                        bullets@,
                        old(self).grid,
                        cell,
                        old(self).phase_start(),
                        i as int,
                    );
                    &&& monsters@ == st.monsters
                    &&& self.player.health == st.health
                    &&& self.player.invis_timer == st.invis
                    &&& self.score == st.score
                    &&& dead == st.dead
                }),
            decreases n - i,
        {
            let mut monster = self.monsters.remove(0);
            assert(monster == old(self).monsters@[i as int]);
            assert(self.monsters@ =~= old(self).monsters@.subrange(i + 1, n));
            let (roll, random_dir) = draws[i];
            monster.step(&self.grid, self.player.location.cell_loc, roll, random_dir);
            let ghost moved = monster;
            let mut j: usize = 0;
            while j < bullets.len()
                invariant
                    monster.wf(),
                    j <= bullets@.len(),
                    monster == damaged_by(moved, bullets@, j as int),
                decreases bullets@.len() - j,
            {
                let c = bullets[j].location.cell_loc;
                if c.0 == monster.location.cell_loc.0 && c.1 == monster.location.cell_loc.1 {
                    monster.get_damage(bullets[j].damage);
                }
                j += 1;
            }
            if monster.is_alive() {
                let here = monster.location.cell_loc;
                let player_cell = self.player.location.cell_loc;
                if here.0 == player_cell.0 && here.1 == player_cell.1 && self.player.invis_timer == 0 {
                    self.player.health = health_after(self.player.health, monster.damage);
                    self.player.invis_timer = INVULNERABLE_TICKS;
                }
                if self.player.health <= 0 {
                    dead = true;
                } else {
                    monsters.push(monster);
                }
            } else {
                self.score = add_points(self.score, KILL_POINTS);
            }
            i += 1;
        }
        proof {
            lemma_phase_settled(
                old(self).monsters@,
                draws@,
                bullets@,
                old(self).grid,
                cell,
                old(self).phase_start(),
                i as int,
                n,
            );
        }
        self.monsters = monsters;
    }

    /// The monster phase with a roll in `0..100` and a random direction
    /// drawn for each monster, in order (see `resolve_monsters_with`).
    pub fn resolve_monsters(&mut self, bullets: &Vec<Bullet>, rng: &mut rand::rngs::StdRng)
        requires
            old(self).wf(),
            actors_wf(old(self).monsters@, bullets@),
        ensures
            final(self).wf(),
            final(self).grid == old(self).grid,
            final(self).bullets == old(self).bullets,
            final(self).player.location == old(self).player.location,
            final(self).player.dir == old(self).player.dir,
            final(self).player.selected_gun == old(self).player.selected_gun,
            final(self).player.speed == old(self).player.speed,
            final(self).player.guns == old(self).player.guns,
            final(self).player.shoot_timer == old(self).player.shoot_timer,
            exists|draws: Seq<(usize, Dir)>|
                draws.len() == old(self).monsters@.len() && rolls_below_100(draws) && #[trigger] old(
                    self,
                ).phase_ends_in(&*final(self), bullets@, draws),
    {
        let mut draws: Vec<(usize, Dir)> = Vec::new();
        while draws.len() < self.monsters.len()
            invariant
                draws@.len() <= self.monsters@.len(),
                forall|k: int| 0 <= k < draws@.len() ==> (#[trigger] draws@[k]).0 < 100,
            decreases self.monsters@.len() - draws@.len(),
        {
            let roll = random_range(rng, 0, 100);
            let random_dir = Dir::random(rng);
            draws.push((roll, random_dir));
        }
        self.resolve_monsters_with(bullets, &draws);
    }

    /// Adds one bullet per pattern of `gun`, fired from the player's
    /// position in the player's facing.
    fn fire(&mut self, gun: &Gun)
        requires
            old(self).wf(),
        ensures
            final(self).wf(),
            final(self).grid == old(self).grid,
            final(self).player == old(self).player,
            final(self).monsters == old(self).monsters,
            final(self).score == old(self).score,
            final(self).bullets@.len() == old(self).bullets@.len() + gun.patterns@.len(),
            final(self).bullets@.subrange(0, old(self).bullets@.len() as int) == old(self).bullets@,
            fired_by(
                final(self).bullets@.subrange(old(self).bullets@.len() as int, final(self).bullets@.len() as int),
                *gun,
                old(self).player.location.location,
                old(self).player.dir,
            ),
    {
        let mut i: usize = 0;
        while i < gun.patterns.len()
            invariant
                self.wf(),
                self.grid == old(self).grid,
                self.player == old(self).player,
                self.monsters == old(self).monsters,
                self.score == old(self).score,
                i <= gun.patterns@.len(),
                self.bullets@.len() == old(self).bullets@.len() + i,
                self.bullets@.subrange(0, old(self).bullets@.len() as int) == old(self).bullets@,
                forall|k: int|
                    0 <= k < i ==> (#[trigger] self.bullets@[old(self).bullets@.len() + k]).fired_from(
                        self.player.location.location,
                        gun.speed,
                        self.player.dir,
                        gun.pattern_seqs()[k],
                        gun.damage,
                    ),
            decreases gun.patterns@.len() - i,
        {
            let b = Bullet::new_with_pattern(
                self.player.location.location,
                gun.speed,
                self.player.dir,
                &gun.patterns[i],
                gun.damage,
            );
            let ghost before = self.bullets@;
            assert(gun.pattern_seqs()[i as int] == gun.patterns@[i as int]@);
            self.bullets.push(b);
            assert(self.bullets@.subrange(0, old(self).bullets@.len() as int) =~= before.subrange(
                0,
                old(self).bullets@.len() as int,
            ));
            assert forall|k: int| 0 <= k < i + 1 implies (#[trigger] self.bullets@[old(self).bullets@.len()
                + k]).fired_from(
                self.player.location.location,
                gun.speed,
                self.player.dir,
                gun.pattern_seqs()[k],
                gun.damage,
            ) by {
                if k < i {
                    assert(self.bullets@[old(self).bullets@.len() + k] == before[old(self).bullets@.len() + k]);
                }
            }
            i += 1;
        }
        proof {
            let n = old(self).bullets@.len() as int;
            let f = self.bullets@.subrange(n, self.bullets@.len() as int);
            assert(gun.pattern_seqs().len() == gun.patterns@.len());
            assert forall|k: int| 0 <= k < f.len() implies #[trigger] f[k] == self.bullets@[n + k] by {}
        }
    }

    /// Steps every bullet through its pattern, in order, and returns those
    /// that nothing stopped (see `advanced`); the state's own list is left
    /// empty.
    pub fn advance_bullets(&mut self) -> (r: Vec<Bullet>)
        requires
            old(self).wf(),
        ensures
            final(self).grid == old(self).grid,
            final(self).player == old(self).player,
            final(self).monsters == old(self).monsters,
            final(self).score == old(self).score,
            final(self).bullets@.len() == 0,
            r@ == advanced(old(self).bullets@, old(self).grid),
            actors_wf(final(self).monsters@, r@),
    {
        let mut kept: Vec<Bullet> = Vec::new();
        while self.bullets.len() > 0
            invariant
                self.grid == old(self).grid,
                self.player == old(self).player,
                self.monsters == old(self).monsters,
                self.score == old(self).score,
                self.grid.wf(),
                actors_wf(self.monsters@, self.bullets@),
                actors_wf(self.monsters@, kept@),
                kept@ + advanced(self.bullets@, self.grid) == advanced(old(self).bullets@, old(self).grid),
            decreases self.bullets@.len(),
        {
            let ghost before = self.bullets@;
            let ghost kept_before = kept@;
            let mut b = self.bullets.remove(0);
            assert(self.bullets@ =~= before.drop_first());
            let hit = b.update(&self.grid);
            if !hit {
                kept.push(b);
                assert(kept@ + advanced(self.bullets@, self.grid) =~= kept_before + advanced(before, self.grid));
            } else {
                assert(kept@ + advanced(self.bullets@, self.grid) =~= kept_before + advanced(before, self.grid));
            }
        }
        assert(kept@ + advanced(self.bullets@, self.grid) =~= kept@);
        kept
    }
}

/// The bullets of `bs` after each steps through its pattern, in order,
/// without those that a wall or the grid's edge stopped.
pub open spec fn advanced(bs: Seq<Bullet>, grid: Grid) -> Seq<Bullet>
    decreases bs.len(),
{
    if bs.len() == 0 {
        Seq::empty()
    } else {
        let b = bs[0];
        let (m, hit) = follow_pattern(b.location, b.pattern@, b.speed as int, grid, b.size as int);
        let rest = advanced(bs.drop_first(), grid);
        if hit {
            rest
        } else {
            seq![Bullet { location: m, ..b }] + rest
        }
    }
}

/// `fired` holds one bullet per pattern of `gun`, in order, fired from
/// `location` facing `dir`.
pub open spec fn fired_by(fired: Seq<Bullet>, gun: Gun, location: (usize, usize), dir: Dir) -> bool {
    &&& fired.len() == gun.pattern_seqs().len()
    &&& forall|i: int|
        0 <= i < fired.len() ==> (#[trigger] fired[i]).fired_from(
            location,
            gun.speed,
            dir,
            gun.pattern_seqs()[i],
            gun.damage,
        )
}

/// Every roll of `draws` lies in `0..100`.
pub open spec fn rolls_below_100(draws: Seq<(usize, Dir)>) -> bool {
    forall|k: int| 0 <= k < draws.len() ==> (#[trigger] draws[k]).0 < 100
}

/// Where the monster phase of a tick stands: the monsters kept so far,
/// the player's health and invulnerability, the score, and whether the
/// player's death has ended the phase.
pub struct MonsterPhase {
    pub monsters: Seq<Monster>,
    pub health: int,
    pub invis: int,
    pub score: int,
    pub dead: bool,
}

/// `m` after the damage of each of the first `j` bullets of `bullets` that
/// is in its cell, in order.
pub open spec fn damaged_by(m: Monster, bullets: Seq<Bullet>, j: int) -> Monster
    decreases j,
{
    if j <= 0 {
        m
    } else {
        let m1 = damaged_by(m, bullets, j - 1);
        if bullets[j - 1].location.cell_loc == m1.location.cell_loc {
            m1.after_damage(bullets[j - 1].damage as int)
        } else {
            m1
        }
    }
}

/// The monster phase after monster `m`, for its roll and random
/// direction: it moves (see `Monster::stepped`), takes the damage of the
/// bullets in its cell, and is dropped for `KILL_POINTS` once dead. A live
/// one in the player's cell hurts a player without invulnerability, who
/// then gets `INVULNERABLE_TICKS` of it. Once the player's health is gone
/// the phase ends, without that monster; later monsters change nothing.
pub open spec fn phase_step(
    st: MonsterPhase,
    m: Monster,
    draw: (usize, Dir),
    bullets: Seq<Bullet>,
    grid: Grid,
    player_cell: (usize, usize),
) -> MonsterPhase {
    if st.dead {
        st
    } else {
        let moved = m.stepped(grid, player_cell, draw.0 as int, draw.1);
        let hurt = damaged_by(moved, bullets, bullets.len() as int);
        if !hurt.alive_spec() {
            MonsterPhase { score: sat_add_u64(st.score, KILL_POINTS as int), ..st }
        } else {
            let hit = hurt.location.cell_loc == player_cell && st.invis == 0;
            let health = if hit {
                sat_sub(st.health, hurt.damage as int)
            } else {
                st.health
            };
            let invis = if hit {
                INVULNERABLE_TICKS as int
            } else {
                st.invis
            };
            if health <= 0 {
                MonsterPhase { health, invis, dead: true, ..st }
            } else {
                MonsterPhase { monsters: st.monsters.push(hurt), health, invis, ..st }
            }
        }
    }
}

/// The monster phase after the first `n` monsters of `ms`, the `k`-th with
/// draw `draws[k]`.
pub open spec fn monster_phase(
    ms: Seq<Monster>,
    draws: Seq<(usize, Dir)>,
    bullets: Seq<Bullet>,
    grid: Grid,
    player_cell: (usize, usize),
    init: MonsterPhase,
    n: int,
) -> MonsterPhase
    decreases n,
{
    if n <= 0 {
        init
    } else {
        phase_step(
            monster_phase(ms, draws, bullets, grid, player_cell, init, n - 1),
            ms[n - 1],
            draws[n - 1],
            bullets,
            grid,
            player_cell,
        )
    }
}

/// Once the phase has ended, or every monster is done, the later monsters
/// change nothing.
proof fn lemma_phase_settled(
    ms: Seq<Monster>,
    draws: Seq<(usize, Dir)>,
    bullets: Seq<Bullet>,
    grid: Grid,
    player_cell: (usize, usize),
    init: MonsterPhase,
    i: int,
    n: int,
)
    requires
        0 <= i <= n,
        monster_phase(ms, draws, bullets, grid, player_cell, init, i).dead || i == n,
    ensures
        monster_phase(ms, draws, bullets, grid, player_cell, init, n) == monster_phase(
            ms,
            draws,
            bullets,
            grid,
            player_cell,
            init,
            i,
        ),
    decreases n - i,
{
    if i < n {
        lemma_phase_settled(ms, draws, bullets, grid, player_cell, init, i, n - 1);
    }
}

} // verus!

use glitch_dungeon::bullet::Bullet;
use glitch_dungeon::dir::Dir;
use glitch_dungeon::game_state::{spawn_cells, GameState, StateAction};
use glitch_dungeon::grid::Grid;
use glitch_dungeon::gun::{Gun, ShapeChoise};
use glitch_dungeon::monster::Monster;
use glitch_dungeon::player::{Controls, Player};
use glitch_dungeon::tile::Tile;
use glitch_dungeon::{CELL_SIZE, GRID_SIZE};
use rand::rngs::StdRng;
use rand::SeedableRng;

fn no_keys() -> Controls {
    Controls {
        move_left: false,
        move_right: false,
        move_up: false,
        move_down: false,
        aim_up: false,
        aim_down: false,
        aim_left: false,
        aim_right: false,
        prev_gun: false,
        next_gun: false,
        shoot: false,
    }
}

fn open_state(rng: &mut StdRng) -> GameState {
    let t = Tile { is_start: false, is_end: false, can_move: true, has_gun: false };
    let grid = Grid { tiles: vec![t; GRID_SIZE * GRID_SIZE], length: GRID_SIZE, height: GRID_SIZE, start: (10, 10) };
    let mut player = Player::new((10, 10), rng);
    player.invis_timer = 0;
    player.guns = vec![Gun::new(5, vec![vec![0, 0], vec![1]], 3, 12, "Zap", ShapeChoise::Rectangle)];
    GameState { grid, player, monsters: Vec::new(), bullets: Vec::new(), score: 0 }
}

#[test]
fn new_game_starts_at_the_start() {
    for seed in 0..5u64 {
        let mut rng = StdRng::seed_from_u64(seed);
        let state = GameState::new(&mut rng);
        assert_eq!(state.grid.length, GRID_SIZE);
        assert_eq!(state.grid.height, GRID_SIZE);
        let start = state.grid.start;
        assert_eq!(state.player.location.cell_loc, start);
        assert_eq!(state.player.location.location, (start.0 * CELL_SIZE + 16, start.1 * CELL_SIZE + 16));
        assert_eq!(state.player.invis_timer, 30);
        assert_eq!(state.score, 0);
        assert!(state.bullets.is_empty());
        let spawns = spawn_cells(&state.grid);
        assert_eq!(state.monsters.len(), spawns.len() / 20);
        for m in &state.monsters {
            assert!(spawns.contains(&m.location.cell_loc));
            let i = m.location.cell_loc.1 * GRID_SIZE + m.location.cell_loc.0;
            assert!(state.grid.tiles[i].can_move && !state.grid.tiles[i].is_start);
        }
    }
}

#[test]
fn spawn_cells_are_passable_and_not_the_start() {
    let t = |can_move, is_start| Tile { is_start, is_end: false, can_move, has_gun: false };
    let grid = Grid { tiles: vec![t(true, true), t(true, false), t(false, false), t(true, false)], length: 2, height: 2, start: (0, 0) };
    assert_eq!(spawn_cells(&grid), vec![(1, 0), (1, 1)]);
}

#[test]
fn monster_contact_kills_a_weak_player() {
    let mut rng = StdRng::seed_from_u64(1);
    let mut state = open_state(&mut rng);
    state.player.health = 5;
    state.monsters.push(Monster::spawn((10 * CELL_SIZE, 10 * CELL_SIZE), 5));
    assert_eq!(state.update(&no_keys(), &mut rng), StateAction::Die);
    assert_eq!(state.player.health, 0);
}

#[test]
fn contact_hurts_then_protects() {
    let mut rng = StdRng::seed_from_u64(1);
    let mut state = open_state(&mut rng);
    state.monsters.push(Monster::spawn((10 * CELL_SIZE, 10 * CELL_SIZE), 5));
    assert_eq!(state.update(&no_keys(), &mut rng), StateAction::Nothing);
    assert_eq!(state.player.health, 95);
    assert_eq!(state.player.invis_timer, 29);
    assert_eq!(state.update(&no_keys(), &mut rng), StateAction::Nothing);
    assert_eq!(state.player.health, 95);
    assert_eq!(state.monsters.len(), 1);
}

#[test]
fn bullet_kills_monster_for_points() {
    let mut rng = StdRng::seed_from_u64(2);
    let mut state = open_state(&mut rng);
    state.monsters.push(Monster::spawn((20 * CELL_SIZE, 20 * CELL_SIZE), 1));
    state.bullets.push(Bullet::new_with_pattern((20 * CELL_SIZE + 16, 20 * CELL_SIZE + 16), 10, Dir::Up, &vec![], 3));
    assert_eq!(state.update(&no_keys(), &mut rng), StateAction::Nothing);
    assert!(state.monsters.is_empty());
    assert_eq!(state.score, 10);
    assert_eq!(state.bullets.len(), 1);
}

#[test]
fn shooting_adds_one_bullet_per_pattern() {
    let mut rng = StdRng::seed_from_u64(3);
    let mut state = open_state(&mut rng);
    let mut c = no_keys();
    c.shoot = true;
    assert_eq!(state.update(&c, &mut rng), StateAction::Nothing);
    assert_eq!(state.bullets.len(), 2);
    assert_eq!(state.bullets[0].pattern, vec![Dir::Up, Dir::Up]);
    assert_eq!(state.bullets[1].pattern, vec![Dir::Right]);
    assert_eq!(state.bullets[0].location.location, (336, 312));
    assert_eq!(state.player.shoot_timer, 5);
}

#[test]
fn reaching_the_end_ends_the_level() {
    let mut rng = StdRng::seed_from_u64(4);
    let mut state = open_state(&mut rng);
    state.grid.tiles[10 * GRID_SIZE + 10].is_end = true;
    state.monsters.push(Monster::spawn((0, 0), 5));
    assert_eq!(state.update(&no_keys(), &mut rng), StateAction::NextLevel);
    assert_eq!(state.monsters[0].location.location, (16, 16));
    state.reset(&mut rng);
    assert!(state.bullets.is_empty());
    let start = state.grid.start;
    assert_eq!(state.player.location.cell_loc, start);
    assert_eq!(state.player.invis_timer, 30);
    assert_eq!(state.player.health, 100);
}

#[test]
fn monster_phase_with_given_draws() {
    let mut rng = StdRng::seed_from_u64(6);
    let mut state = open_state(&mut rng);
    state.score = 7;
    state.monsters.push(Monster::spawn((10 * CELL_SIZE, 10 * CELL_SIZE), 5));
    state.monsters.push(Monster::spawn((3 * CELL_SIZE, 3 * CELL_SIZE), 1));
    state.monsters.push(Monster::spawn((10 * CELL_SIZE, 10 * CELL_SIZE), 5));
    let bullets = vec![Bullet::new_with_pattern((3 * CELL_SIZE + 16, 3 * CELL_SIZE + 16), 10, Dir::Up, &vec![], 2)];
    let draws = vec![(0, Dir::Up), (0, Dir::Left), (99, Dir::Down)];
    state.resolve_monsters_with(&bullets, &draws);
    assert_eq!(state.player.health, 95);
    assert_eq!(state.player.invis_timer, 30);
    assert_eq!(state.score, 17);
    assert_eq!(state.monsters.len(), 2);
    assert_eq!(state.monsters[0].location.location, (336, 331));
    assert_eq!(state.monsters[1].location.location, (336, 341));
}

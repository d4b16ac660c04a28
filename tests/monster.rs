use glitch_dungeon::dir::Dir;
use glitch_dungeon::grid::Grid;
use glitch_dungeon::monster::{health_after, Monster, DAMAGE_COOLDOWN};
use glitch_dungeon::player::Player;
use glitch_dungeon::tile::Tile;
use rand::rngs::StdRng;
use rand::SeedableRng;

#[test]
fn negative_monster_takes_positive_damage_down_to_the_floor() {
    let mut m = Monster::spawn((0, 0), -5);
    assert!(m.started_negative);
    assert!(m.is_alive());
    let mut healths = Vec::new();
    for _ in 0..7 {
        m.damage_cooldown = 0;
        assert!(m.get_damage(3));
        healths.push(m.health);
    }
    assert_eq!(healths, vec![-8, -11, -11, -11, -11, -11, -11]);
    assert_eq!(m.damage_cooldown, 0);
}

#[test]
fn negative_monster_dies_from_negative_damage() {
    let mut m = Monster::spawn((0, 0), -5);
    assert!(!m.get_damage(-5));
    assert_eq!(m.health, 0);
    assert_eq!(m.damage_cooldown, DAMAGE_COOLDOWN);
}

#[test]
fn positive_monster_heals_only_below_the_ceiling() {
    let mut m = Monster::spawn((0, 0), 9);
    assert!(!m.started_negative);
    assert!(m.get_damage(-2));
    assert_eq!(m.health, 11);
    m.damage_cooldown = 0;
    assert!(m.get_damage(-1));
    assert_eq!(m.health, 11);
    assert_eq!(m.damage_cooldown, 0);
    assert!(!m.get_damage(11));
    assert_eq!(m.health, 0);
}

#[test]
fn cooldown_blocks_damage() {
    let mut m = Monster::spawn((32, 32), 4);
    assert!(m.get_damage(3));
    assert_eq!(m.health, 1);
    assert!(m.get_damage(3));
    assert_eq!(m.health, 1);
    assert_eq!(m.damage_cooldown, DAMAGE_COOLDOWN);
}

#[test]
fn zero_health_monster_is_dead() {
    let m = Monster::spawn((0, 0), 0);
    assert!(!m.started_negative);
    assert!(!m.is_alive());
}

#[test]
fn health_saturates() {
    assert_eq!(health_after(isize::MIN + 1, 5), isize::MIN);
    assert_eq!(health_after(isize::MAX - 1, -5), isize::MAX);
    assert_eq!(health_after(3, 5), -2);
}

#[test]
fn random_monster_health_is_in_range() {
    let mut rng = StdRng::seed_from_u64(9);
    for _ in 0..50 {
        let m = Monster::new((64, 32), &mut rng);
        assert!(m.health >= -10 && m.health < 10);
        assert_eq!(m.started_negative, m.health < 0);
        assert_eq!(m.location.location, (80, 48));
        assert_eq!(m.location.cell_loc, (2, 1));
    }
}

#[test]
fn pursuit_prefers_the_horizontal_axis() {
    let m = Monster::spawn((64, 64), 5);
    assert_eq!(m.pursue((0, 0)), Some(Dir::Left));
    assert_eq!(m.pursue((3, 0)), Some(Dir::Right));
    assert_eq!(m.pursue((2, 0)), Some(Dir::Up));
    assert_eq!(m.pursue((2, 5)), Some(Dir::Down));
    assert_eq!(m.pursue((2, 2)), None);
}

fn open_grid(length: usize, height: usize) -> Grid {
    let t = Tile { is_start: false, is_end: false, can_move: true, has_gun: false };
    Grid { tiles: vec![t; length * height], length, height, start: (0, 0) }
}

#[test]
fn step_chases_or_wanders() {
    let grid = open_grid(4, 4);
    let mut m = Monster::spawn((64, 64), 5);
    m.damage_cooldown = 2;
    m.step(&grid, (0, 2), 50, Dir::Down);
    assert_eq!(m.location.location, (75, 80));
    assert_eq!(m.damage_cooldown, 1);
    let mut m = Monster::spawn((64, 64), 5);
    m.step(&grid, (0, 2), 10, Dir::Down);
    assert_eq!(m.location.location, (80, 85));
    assert_eq!(m.damage_cooldown, 0);
    let mut m = Monster::spawn((64, 64), 5);
    m.step(&grid, (2, 2), 99, Dir::Up);
    assert_eq!(m.location.location, (80, 75));
}

#[test]
fn move_a_bit_moves_one_step() {
    let grid = open_grid(4, 4);
    let mut rng = StdRng::seed_from_u64(4);
    let player = Player::new((0, 0), &mut rng);
    for _ in 0..20 {
        let mut m = Monster::spawn((64, 64), 5);
        m.move_a_bit(&grid, &player, &mut rng);
        let (x, y) = m.location.location;
        let dx = (x as i64 - 80).abs();
        let dy = (y as i64 - 80).abs();
        assert_eq!(dx + dy, 5);
    }
}

use glitch_dungeon::bullet::{Bullet, BULLET_SIZE};
use glitch_dungeon::dir::Dir;
use glitch_dungeon::grid::Grid;
use glitch_dungeon::tile::Tile;

fn tile(can_move: bool) -> Tile {
    Tile { is_start: false, is_end: false, can_move, has_gun: false }
}

#[test]
fn pattern_turns_relative_into_absolute_directions() {
    let b = Bullet::new_with_pattern((40, 40), 12, Dir::Up, &vec![0, 1, 2, 3], 4);
    assert_eq!(b.pattern, vec![Dir::Up, Dir::Right, Dir::Down, Dir::Left]);
    let b = Bullet::new_with_pattern((40, 40), 12, Dir::Left, &vec![0, 1, 2, 3], 4);
    assert_eq!(b.pattern, vec![Dir::Left, Dir::Up, Dir::Right, Dir::Down]);
    let b = Bullet::new_with_pattern((40, 40), 12, Dir::Right, &vec![0, 1, 3], -2);
    assert_eq!(b.pattern, vec![Dir::Right, Dir::Down, Dir::Up]);
    assert_eq!(b.location.location, (40, 40));
    assert_eq!(b.location.cell_loc, (1, 1));
    assert_eq!(b.size, BULLET_SIZE);
    assert_eq!(b.speed, 12);
    assert_eq!(b.damage, -2);
}

#[test]
fn bullet_flies_until_a_wall() {
    let grid = Grid { tiles: vec![tile(true), tile(true), tile(true), tile(false)], length: 4, height: 1, start: (0, 0) };
    let mut b = Bullet::new_with_pattern((16, 16), 10, Dir::Right, &vec![0, 0], 1);
    assert!(!b.update(&grid));
    assert_eq!(b.location.location, (36, 16));
    assert_eq!(b.location.cell_loc, (1, 0));
    assert!(!b.update(&grid));
    assert_eq!(b.location.location, (56, 16));
    assert!(!b.update(&grid));
    assert_eq!(b.location.location, (76, 16));
    assert_eq!(b.location.cell_loc, (2, 0));
    assert!(b.update(&grid));
    assert_eq!(b.location.location, (86, 16));
    assert_eq!(b.location.cell_loc, (2, 0));
}

#[test]
fn bullet_stops_at_the_grid_edge_on_the_first_blocked_step() {
    let grid = Grid { tiles: vec![tile(true); 2], length: 2, height: 1, start: (0, 0) };
    let mut b = Bullet::new_with_pattern((16, 16), 10, Dir::Up, &vec![0, 1], 1);
    assert!(b.update(&grid));
    assert_eq!(b.location.location, (16, 16));
}

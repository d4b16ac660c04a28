use glitch_dungeon::dir::Dir;
use glitch_dungeon::grid::Grid;
use glitch_dungeon::moveable::Moveable;
use glitch_dungeon::tile::Tile;
use glitch_dungeon::{CELL_SIZE, PLAYER_SIZE};

fn tile(can_move: bool) -> Tile {
    Tile { is_start: false, is_end: false, can_move, has_gun: false }
}

fn row(cells: &[bool]) -> Grid {
    Grid { tiles: cells.iter().map(|c| tile(*c)).collect(), length: cells.len(), height: 1, start: (0, 0) }
}

fn open_grid(length: usize, height: usize) -> Grid {
    Grid { tiles: vec![tile(true); length * height], length, height, start: (0, 0) }
}

fn in_sync(m: &Moveable) -> bool {
    m.cell_loc == (m.location.0 / CELL_SIZE, m.location.1 / CELL_SIZE)
}

#[test]
fn wall_stops_actor_flush_against_it() {
    let grid = row(&[true, false, true]);
    let mut m = Moveable::new((0, 0));
    assert_eq!(m.location, (16, 16));
    assert_eq!(m.cell_loc, (0, 0));
    let first = m.move_some(Dir::Right, 10, &grid, PLAYER_SIZE);
    assert_eq!(first, Some(Some(((1, 0), grid.tiles[1]))));
    assert_eq!(m.location, (24, 16));
    assert_eq!(m.cell_loc, (0, 0));
    for _ in 0..10 {
        let r = m.move_some(Dir::Right, 10, &grid, PLAYER_SIZE);
        assert_eq!(r, Some(Some(((1, 0), grid.tiles[1]))));
        assert_eq!(m.location, (24, 16));
        assert_eq!(m.cell_loc, (0, 0));
    }
}

#[test]
fn actor_stays_in_its_cell_until_the_edge_crosses() {
    let grid = row(&[true, true, true]);
    let mut m = Moveable::new((0, 0));
    assert_eq!(m.move_some(Dir::Right, 4, &grid, PLAYER_SIZE), None);
    assert_eq!(m.location, (20, 16));
    assert_eq!(m.cell_loc, (0, 0));
    assert_eq!(m.move_some(Dir::Right, 10, &grid, PLAYER_SIZE), None);
    assert_eq!(m.location, (30, 16));
    assert_eq!(m.cell_loc, (0, 0));
    assert_eq!(m.move_some(Dir::Right, 10, &grid, PLAYER_SIZE), None);
    assert_eq!(m.location, (40, 16));
    assert_eq!(m.cell_loc, (1, 0));
}

#[test]
fn zero_speed_changes_nothing() {
    let grid = open_grid(3, 3);
    for dir in [Dir::Up, Dir::Down, Dir::Left, Dir::Right] {
        let mut m = Moveable::new((32, 32));
        let before = m;
        assert_eq!(m.move_some(dir, 0, &grid, PLAYER_SIZE), None);
        assert_eq!(m.location, before.location);
        assert_eq!(m.cell_loc, before.cell_loc);
    }
}

#[test]
fn left_edge_stops_actor() {
    let grid = open_grid(3, 3);
    let mut m = Moveable::new((0, 32));
    assert_eq!(m.move_some(Dir::Left, 10, &grid, PLAYER_SIZE), Some(None));
    assert_eq!(m.location, (16, 48));
    assert_eq!(m.cell_loc, (0, 1));
    assert_eq!(m.move_some(Dir::Left, 100, &grid, PLAYER_SIZE), Some(None));
    assert_eq!(m.location, (16, 48));
}

#[test]
fn top_and_bottom_edges_stop_actor() {
    let grid = open_grid(2, 2);
    let mut m = Moveable::new((0, 0));
    assert_eq!(m.move_some(Dir::Up, 10, &grid, PLAYER_SIZE), Some(None));
    assert_eq!(m.location, (16, 16));
    let mut m = Moveable::new((32, 32));
    assert_eq!(m.move_some(Dir::Down, 10, &grid, PLAYER_SIZE), Some(None));
    assert_eq!(m.location, (48, 48));
    assert_eq!(m.move_some(Dir::Right, 10, &grid, PLAYER_SIZE), Some(None));
    assert_eq!(m.location, (48, 48));
}

#[test]
fn moving_left_and_up_into_open_cells() {
    let grid = open_grid(3, 3);
    let mut m = Moveable::new((64, 64));
    assert_eq!(m.move_some(Dir::Left, 20, &grid, PLAYER_SIZE), None);
    assert_eq!(m.location, (60, 80));
    assert_eq!(m.cell_loc, (1, 2));
    assert_eq!(m.move_some(Dir::Up, 30, &grid, PLAYER_SIZE), None);
    assert_eq!(m.location, (60, 50));
    assert_eq!(m.cell_loc, (1, 1));
}

#[test]
fn wall_above_clamps_from_below() {
    let grid = Grid { tiles: vec![tile(false), tile(true)], length: 1, height: 2, start: (0, 1) };
    let mut m = Moveable::new((0, 32));
    assert_eq!(m.move_some(Dir::Up, 10, &grid, PLAYER_SIZE), Some(Some(((0, 0), grid.tiles[0]))));
    assert_eq!(m.location, (16, 40));
    assert_eq!(m.cell_loc, (0, 1));
}

#[test]
fn cell_follows_position_over_many_moves() {
    let grid = row(&[true, true, false, true, true]);
    let mut m = Moveable::new((0, 0));
    let dirs = [Dir::Right, Dir::Right, Dir::Left, Dir::Right, Dir::Up, Dir::Down, Dir::Right, Dir::Left];
    for (i, dir) in dirs.iter().cycle().take(40).enumerate() {
        let before = m;
        let r = m.move_some(*dir, 3 + (i % 7), &grid, PLAYER_SIZE);
        match r {
            Some(Some(_)) => assert_eq!(m.cell_loc, before.cell_loc),
            _ => assert!(in_sync(&m)),
        }
        assert!(grid.tiles[m.cell_loc.0].can_move);
    }
}

#[test]
fn new_not_center_keeps_position() {
    let m = Moveable::new_not_center((70, 5));
    assert_eq!(m.location, (70, 5));
    assert_eq!(m.cell_loc, (2, 0));
    let mut m = Moveable::new((64, 0));
    m.reset_location((32, 96));
    assert_eq!(m.location, (48, 112));
    assert_eq!(m.cell_loc, (1, 3));
}

use glitch_dungeon::grid::{Grid, MAX_WALK_STEPS};
use glitch_dungeon::dir::Dir;
use glitch_dungeon::grid::{random_walk, walk_with};
use glitch_dungeon::tile::Tile;
use rand::rngs::StdRng;
use rand::SeedableRng;

fn tile(can_move: bool) -> Tile {
    Tile { is_start: false, is_end: false, can_move, has_gun: false }
}

fn cells_where(grid: &Grid, f: impl Fn(&Tile) -> bool) -> Vec<(usize, usize)> {
    let mut out = Vec::new();
    for (i, t) in grid.tiles.iter().enumerate() {
        if f(t) {
            out.push((i % grid.length, i / grid.length));
        }
    }
    out
}

fn bfs_reaches(grid: &Grid, from: (usize, usize), to: (usize, usize)) -> bool {
    let mut seen = vec![false; grid.tiles.len()];
    let mut queue = vec![from];
    seen[from.1 * grid.length + from.0] = true;
    while let Some((x, y)) = queue.pop() {
        if (x, y) == to {
            return true;
        }
        let mut next = Vec::new();
        if x > 0 {
            next.push((x - 1, y));
        }
        if y > 0 {
            next.push((x, y - 1));
        }
        if x + 1 < grid.length {
            next.push((x + 1, y));
        }
        if y + 1 < grid.height {
            next.push((x, y + 1));
        }
        for (nx, ny) in next {
            let i = ny * grid.length + nx;
            if grid.tiles[i].can_move && !seen[i] {
                seen[i] = true;
                queue.push((nx, ny));
            }
        }
    }
    false
}

#[test]
fn single_cell_walk_gives_one_start_and_end_tile() {
    let walk = vec![(2, 1)];
    let guns = vec![false; 12];
    let grid = Grid::from_walk(4, 3, &walk, &guns);
    assert_eq!(grid.tiles.len(), 12);
    assert_eq!(grid.start, (2, 1));
    assert_eq!(cells_where(&grid, |t| t.can_move), vec![(2, 1)]);
    assert_eq!(cells_where(&grid, |t| t.is_start), vec![(2, 1)]);
    assert_eq!(cells_where(&grid, |t| t.is_end), vec![(2, 1)]);
}

#[test]
fn walk_past_last_column_folds_onto_it() {
    let walk = vec![(1, 0), (2, 0), (3, 0), (3, 1)];
    let guns = vec![false, false, false, true, false, false];
    let grid = Grid::from_walk(3, 2, &walk, &guns);
    assert_eq!(cells_where(&grid, |t| t.can_move), vec![(1, 0), (2, 0), (2, 1)]);
    assert_eq!(cells_where(&grid, |t| t.is_start), vec![(1, 0)]);
    assert_eq!(cells_where(&grid, |t| t.is_end), vec![(2, 1)]);
    assert_eq!(cells_where(&grid, |t| t.has_gun), vec![(0, 1)]);
}

#[test]
fn revisited_start_stays_start() {
    let walk = vec![(0, 0), (1, 0), (0, 0), (0, 1)];
    let guns = vec![false; 4];
    let grid = Grid::from_walk(2, 2, &walk, &guns);
    assert!(grid.tiles[0].is_start && grid.tiles[0].can_move && !grid.tiles[0].is_end);
    assert!(grid.tiles[2].is_end);
    assert!(!grid.tiles[3].can_move);
}

#[test]
fn generated_grids_have_start_end_and_a_path_between() {
    for seed in 0..20u64 {
        let mut rng = StdRng::seed_from_u64(seed);
        let grid = Grid::new(12, 9, &mut rng);
        assert_eq!(grid.length, 12);
        assert_eq!(grid.height, 9);
        assert_eq!(grid.tiles.len(), 108);
        let start = grid.start;
        assert!(start.0 < 12 && start.1 < 9);
        assert!(grid.tiles[start.1 * 12 + start.0].can_move);
        assert_eq!(cells_where(&grid, |t| t.is_start), vec![start]);
        let ends = cells_where(&grid, |t| t.is_end);
        assert_eq!(ends.len(), 1);
        assert!(grid.tiles[ends[0].1 * 12 + ends[0].0].can_move);
        assert!(bfs_reaches(&grid, start, ends[0]));
    }
}

#[test]
fn generated_single_cell_grid() {
    let mut rng = StdRng::seed_from_u64(3);
    let grid = Grid::new(1, 1, &mut rng);
    assert_eq!(grid.start, (0, 0));
    assert!(grid.tiles[0].can_move && grid.tiles[0].is_start && grid.tiles[0].is_end);
}

#[test]
fn random_walk_reaches_its_exit_with_unit_steps() {
    let mut rng = StdRng::seed_from_u64(11);
    let (walk, reached) = random_walk(&mut rng, 5, 5, (0, 0), (4, 3), MAX_WALK_STEPS);
    assert!(reached);
    assert_eq!(walk[0], (0, 0));
    assert_eq!(*walk.last().unwrap(), (4, 3));
    for w in walk.windows(2) {
        let dx = (w[0].0 as i64 - w[1].0 as i64).abs();
        let dy = (w[0].1 as i64 - w[1].1 as i64).abs();
        assert_eq!(dx + dy, 1);
        assert!(w[1].0 <= 5 && w[1].1 <= 5);
    }
}

#[test]
fn random_walk_with_no_steps_stops_at_start() {
    let mut rng = StdRng::seed_from_u64(1);
    let (walk, reached) = random_walk(&mut rng, 5, 5, (1, 1), (4, 3), 0);
    assert_eq!(walk, vec![(1, 1)]);
    assert!(!reached);
    let (walk, reached) = random_walk(&mut rng, 5, 5, (2, 2), (2, 2), 10);
    assert_eq!(walk, vec![(2, 2)]);
    assert!(reached);
}

#[test]
fn calc_cell_clamps_into_the_grid() {
    assert_eq!(Grid::calc_cell(&(2, 1), 4, 3), 6);
    assert_eq!(Grid::calc_cell(&(4, 1), 4, 3), 7);
    assert_eq!(Grid::calc_cell(&(9, 9), 4, 3), 11);
    assert_eq!(Grid::calc_cell_unbound(&(3, 2), 4, 3), 11);
    assert_eq!(Grid::calc_pos_from_index(7, 4, 3), (3, 1));
    assert_eq!(Grid::calc_pos_from_index(0, 4, 3), (0, 0));
}

fn small_grid() -> Grid {
    let mut tiles = Vec::new();
    for i in 0..6 {
        let mut t = tile(i % 2 == 0);
        t.has_gun = i == 4;
        tiles.push(t);
    }
    Grid { tiles, length: 3, height: 2, start: (0, 0) }
}

#[test]
fn get_cell_inside_and_outside() {
    let grid = small_grid();
    assert_eq!(grid.get_cell((1, 1)), Some(((1, 1), grid.tiles[4])));
    assert_eq!(grid.get_cell((3, 0)), None);
    assert_eq!(grid.get_cell((0, 2)), None);
}

#[test]
fn get_part_returns_the_rectangle_in_order() {
    let grid = small_grid();
    let part = grid.get_part((1, 0), (2, 1));
    let cells: Vec<(usize, usize)> = part.iter().map(|(c, _)| *c).collect();
    assert_eq!(cells, vec![(1, 0), (2, 0), (1, 1), (2, 1)]);
    assert_eq!(part[2].1, grid.tiles[4]);
    assert!(grid.get_part((5, 5), (9, 9)).is_empty());
}

#[test]
fn get_gun_takes_the_gun_once() {
    let mut grid = small_grid();
    let mut rng = StdRng::seed_from_u64(5);
    let gun = grid.get_gun(&(1, 1), &mut rng).expect("the tile holds a gun");
    assert!(!grid.tiles[4].has_gun);
    assert!(gun.patterns.len() >= 1 && gun.patterns.len() <= 2);
    assert!(gun.cooldown >= 15 && gun.cooldown < 25);
    assert!(gun.damage >= -10 && gun.damage < 10);
    assert!(gun.speed >= 10 && gun.speed < 20);
    assert!(grid.get_gun(&(1, 1), &mut rng).is_none());
    assert!(grid.get_gun(&(7, 0), &mut rng).is_none());
    assert!(grid.get_gun(&(0, 0), &mut rng).is_none());
}

#[test]
fn walk_with_stops_at_the_exit() {
    let dirs = vec![Dir::Right, Dir::Down, Dir::Right, Dir::Right];
    let (walk, reached) = walk_with(3, 3, (0, 0), (2, 0), &dirs);
    assert_eq!(walk, vec![(0, 0), (1, 0), (2, 0)]);
    assert!(reached);
}

#[test]
fn walk_with_skips_steps_past_the_bound() {
    let dirs = vec![Dir::Right, Dir::Right, Dir::Up];
    let (walk, reached) = walk_with(2, 2, (1, 0), (0, 1), &dirs);
    assert_eq!(walk, vec![(1, 0), (2, 0), (2, 1)]);
    assert!(!reached);
    let (walk, reached) = walk_with(2, 2, (1, 1), (1, 1), &dirs);
    assert_eq!(walk, vec![(1, 1)]);
    assert!(reached);
}

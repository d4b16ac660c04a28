use glitch_dungeon::dir::Dir;
use glitch_dungeon::grid::Grid;
use glitch_dungeon::gun::{get_random_name, glitch_chars, pattern_label, Gun, ShapeChoise};
use glitch_dungeon::player::{calc_start, Action, Controls, Player, GUN_POINTS};
use glitch_dungeon::tile::Tile;
use rand::rngs::StdRng;
use rand::SeedableRng;

fn no_keys() -> Controls {
    Controls {
        move_left: false,
        move_right: false,
        move_up: false,
        move_down: false,
        aim_up: false,
        aim_down: false,
        aim_left: false,
        aim_right: false,
        prev_gun: false,
        next_gun: false,
        shoot: false,
    }
}

fn tile(can_move: bool) -> Tile {
    Tile { is_start: false, is_end: false, can_move, has_gun: false }
}

fn open_grid(length: usize, height: usize) -> Grid {
    Grid { tiles: vec![tile(true); length * height], length, height, start: (0, 0) }
}

fn test_gun(cooldown: usize) -> Gun {
    Gun::new(cooldown, vec![vec![0, 1], vec![2]], 3, 12, "Zap", ShapeChoise::Circle)
}

fn test_player() -> Player {
    let mut rng = StdRng::seed_from_u64(2);
    let mut p = Player::new((1, 1), &mut rng);
    p.guns = vec![test_gun(5), test_gun(7), test_gun(9)];
    p
}

#[test]
fn calc_start_values() {
    assert_eq!(calc_start(0, 25), 0);
    assert_eq!(calc_start(1, 0), 0);
    assert_eq!(calc_start(11, 25), 0);
    assert_eq!(calc_start(13, 25), 0);
    assert_eq!(calc_start(14, 25), 1);
    assert_eq!(calc_start(40, 25), 27);
}

#[test]
fn new_player() {
    let mut rng = StdRng::seed_from_u64(8);
    let p = Player::new((2, 3), &mut rng);
    assert_eq!(p.location.location, (80, 112));
    assert_eq!(p.location.cell_loc, (2, 3));
    assert_eq!(p.health, 100);
    assert_eq!(p.invis_timer, 30);
    assert_eq!(p.guns.len(), 2);
    assert_eq!(p.selected_gun, 0);
    assert_eq!(p.dir, Dir::Up);
    for g in &p.guns {
        assert_eq!(g.patterns.len(), 3);
        assert!(g.patterns.iter().all(|p| p.len() == 3 && p.iter().all(|v| *v >= 0 && *v < 4)));
        assert!(g.cooldown >= 15 && g.cooldown < 25);
        assert!(g.damage >= -7 && g.damage < 7);
        assert!(g.speed >= 10 && g.speed < 20);
    }
}

#[test]
fn outer_cell_points() {
    let p = test_player();
    assert_eq!(p.get_outer_cell_points(), ((0, 0), (801, 601)));
    let mut p = test_player();
    p.reset_location((40 * 32, 30 * 32));
    assert_eq!(p.get_outer_cell_points(), ((27, 20), (828, 621)));
}

#[test]
fn moves_aims_and_selects() {
    let mut grid = open_grid(4, 4);
    let mut rng = StdRng::seed_from_u64(3);
    let mut p = test_player();
    let mut c = no_keys();
    c.move_right = true;
    c.move_down = true;
    c.aim_left = true;
    c.aim_up = true;
    c.prev_gun = true;
    let (points, action) = p.update(&c, &mut grid, &mut rng);
    assert_eq!(points, 0);
    assert!(matches!(action, Action::Nothing));
    assert_eq!(p.location.location, (58, 58));
    assert_eq!(p.dir, Dir::Left);
    assert_eq!(p.selected_gun, 2);
    let mut c = no_keys();
    c.next_gun = true;
    p.update(&c, &mut grid, &mut rng);
    assert_eq!(p.selected_gun, 0);
}

#[test]
fn shoots_when_ready() {
    let mut grid = open_grid(4, 4);
    let mut rng = StdRng::seed_from_u64(3);
    let mut p = test_player();
    p.selected_gun = 1;
    let mut c = no_keys();
    c.shoot = true;
    let (_, action) = p.update(&c, &mut grid, &mut rng);
    match action {
        Action::Shoot(g) => {
            assert_eq!(g.cooldown, 7);
            assert_eq!(g.patterns, vec![vec![0, 1], vec![2]]);
            assert_eq!(g.name, "Zap");
        },
        _ => panic!("expected a shot"),
    }
    assert_eq!(p.shoot_timer, 7);
    let (_, action) = p.update(&c, &mut grid, &mut rng);
    assert!(matches!(action, Action::Nothing));
    assert_eq!(p.shoot_timer, 6);
}

#[test]
fn picks_up_guns_and_drops_the_oldest() {
    let mut grid = open_grid(4, 4);
    let mut rng = StdRng::seed_from_u64(3);
    let mut p = test_player();
    grid.tiles[5].has_gun = true;
    let (points, _) = p.update(&no_keys(), &mut grid, &mut rng);
    assert_eq!(points, GUN_POINTS);
    assert_eq!(p.guns.len(), 4);
    assert!(!grid.tiles[5].has_gun);
    grid.tiles[5].has_gun = true;
    let (points, _) = p.update(&no_keys(), &mut grid, &mut rng);
    assert_eq!(points, 20);
    assert_eq!(p.guns.len(), 4);
    assert_eq!(p.guns[0].cooldown, 7);
    assert_eq!(p.guns[1].cooldown, 9);
    let (points, _) = p.update(&no_keys(), &mut grid, &mut rng);
    assert_eq!(points, 0);
}

#[test]
fn reaching_the_end_moves_to_the_next_screen() {
    let mut grid = open_grid(4, 4);
    grid.tiles[6].is_end = true;
    let mut rng = StdRng::seed_from_u64(3);
    let mut p = test_player();
    let mut c = no_keys();
    c.move_right = true;
    let (_, action) = p.update(&c, &mut grid, &mut rng);
    assert!(matches!(action, Action::Nothing));
    c.shoot = true;
    let (_, action) = p.update(&c, &mut grid, &mut rng);
    assert_eq!(p.location.cell_loc, (2, 1));
    assert!(matches!(action, Action::NextScreen));
}

#[test]
fn pattern_labels() {
    assert_eq!(pattern_label(&vec![0, 1, 2, 3, -1, 5, 9]), vec!['F', 'R', 'B', 'L', 'L', 'R', 'L']);
}

#[test]
fn random_names() {
    let mut rng = StdRng::seed_from_u64(21);
    let allowed = glitch_chars();
    for _ in 0..30 {
        let name = get_random_name(&mut rng);
        let n = name.chars().count();
        assert!(n >= 5 && n < 8);
        assert!(name.chars().all(|c| allowed.contains(&c)));
    }
}

#[test]
fn shapes_from_numbers() {
    assert_eq!(ShapeChoise::from(0u8), ShapeChoise::Rectangle);
    assert_eq!(ShapeChoise::from(1u8), ShapeChoise::Circle);
    assert_eq!(ShapeChoise::from(2u8), ShapeChoise::Triangle);
    assert_eq!(ShapeChoise::from(200u8), ShapeChoise::Triangle);
    assert_eq!(Dir::from(0u8), Dir::Up);
    assert_eq!(Dir::from(1u8), Dir::Left);
    assert_eq!(Dir::from(2u8), Dir::Down);
    assert_eq!(Dir::from(7u8), Dir::Right);
    assert_eq!(u8::from(Dir::Right), 3);
    assert_eq!(u8::from(Dir::Down), 2);
}

#[test]
fn duplicate_copies_everything() {
    let g = test_gun(11);
    let d = g.duplicate();
    assert_eq!(d.cooldown, 11);
    assert_eq!(d.patterns, g.patterns);
    assert_eq!(d.damage, 3);
    assert_eq!(d.speed, 12);
    assert_eq!(d.name, "Zap");
    assert_eq!(d.shape, ShapeChoise::Circle);
}

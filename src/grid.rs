//! The tile grid of one level and its generation from a random walk.

use vstd::prelude::*;
use vstd::arithmetic::div_mod::lemma_fundamental_div_mod_converse;
use crate::CELL_SIZE;
use crate::tile::Tile;
use crate::gun::Gun;
use crate::dir::Dir;
use crate::random::random_range;

verus! {

pub struct Grid {
    /// The tiles, row by row: the tile of cell `(x, y)` is at `y * length + x`.
    pub tiles: Vec<Tile>,
    /// Width, in cells.
    pub length: usize,
    /// Height, in cells.
    pub height: usize,
    /// The cell where the player starts.
    pub start: (usize, usize),
}

/// Pixel coordinates across a side of `side` cells, and one cell beyond
/// it, are representable.
pub open spec fn side_fits(side: int) -> bool {
    (side + 1) * CELL_SIZE <= usize::MAX
}

/// The row-major index of cell `(x, y)` in a grid `length` cells wide.
pub open spec fn cell_index(x: int, y: int, length: int) -> int {
    y * length + x
}

/// The cell at row-major index `i` in a grid `length` cells wide.
pub open spec fn index_cell(i: int, length: int) -> (int, int) {
    (i % length, i / length)
}

/// Index and cell correspond one to one inside a grid.
pub proof fn lemma_cell_index(x: int, y: int, length: int, height: int)
    requires
        0 <= x < length,
        0 <= y < height,
    ensures
        0 <= cell_index(x, y, length) < length * height,
        index_cell(cell_index(x, y, length), length) == (x, y),
{
    assert(0 <= y * length + x < length * height) by (nonlinear_arith)
        requires
            0 <= x < length,
            0 <= y < height,
    ;
    lemma_fundamental_div_mod_converse(y * length + x, length, y, x);
}

/// The cell of an index inside a grid lies inside it, and indexes back.
pub proof fn lemma_index_cell(i: int, length: int, height: int)
    requires
        0 < length,
        0 <= i < length * height,
    ensures
        0 <= index_cell(i, length).0 < length,
        0 <= index_cell(i, length).1 < height,
        cell_index(index_cell(i, length).0, index_cell(i, length).1, length) == i,
{
    let q = i / length;
    let r = i % length;
    assert(i == q * length + r && 0 <= r < length && 0 <= q) by (nonlinear_arith)
        requires
            0 < length,
            0 <= i,
            q == i / length,
            r == i % length,
    ;
    assert(q < height) by (nonlinear_arith)
        requires
            i == q * length + r,
            0 <= r,
            i < length * height,
            0 < length,
    ;
}

impl Grid {
    /// The grid is as wide and high as its tiles say, within the size limit.
    pub open spec fn wf(&self) -> bool {
        &&& 0 < self.length
        &&& 0 < self.height
        &&& side_fits(self.length as int)
        &&& side_fits(self.height as int)
        &&& self.tiles@.len() == self.length * self.height
        &&& self.length * self.height <= usize::MAX
    }

    /// Whether `(x, y)` is a cell of the grid.
    pub open spec fn in_bounds(&self, x: int, y: int) -> bool {
        0 <= x < self.length && 0 <= y < self.height
    }

    /// The tile of cell `(x, y)`.
    pub open spec fn tile_at(&self, x: int, y: int) -> Tile {
        self.tiles@[cell_index(x, y, self.length as int)]
    }

    /// Whether `(x, y)` is a cell of the grid that actors may occupy.
    pub open spec fn passable(&self, x: int, y: int) -> bool {
        self.in_bounds(x, y) && self.tile_at(x, y).can_move
    }

    /// What a lookup of cell `(x, y)` finds: the cell and its tile, or
    /// nothing outside the grid.
    pub open spec fn cell_spec(&self, x: int, y: int) -> Option<((usize, usize), Tile)> {
        if self.in_bounds(x, y) {
            Some(((x as usize, y as usize), self.tile_at(x, y)))
        } else {
            None
        }
    }

    /// The cells, with their tiles, among the first `n` in index order that
    /// lie in the rectangle from `start` to `end`, both corners included.
    pub open spec fn part_upto(&self, start: (usize, usize), end: (usize, usize), n: int) -> Seq<
        ((usize, usize), Tile),
    >
        decreases n,
    {
        if n <= 0 {
            Seq::empty()
        } else {
            let prev = self.part_upto(start, end, n - 1);
            let loc = index_cell(n - 1, self.length as int);
            if start.0 <= loc.0 <= end.0 && start.1 <= loc.1 <= end.1 {
                prev.push(((loc.0 as usize, loc.1 as usize), self.tiles@[n - 1]))
            } else {
                prev
            }
        }
    }

    /// The index of `point` once each coordinate is clamped into the grid.
    pub fn calc_cell(point: &(usize, usize), length: usize, height: usize) -> (r: usize)
        requires
            0 < length,
            0 < height,
            length * height <= usize::MAX,
        ensures
            r == cell_index(
                clamp_coord(point.0 as int, length as int),
                clamp_coord(point.1 as int, height as int),
                length as int,
            ),
            r < length * height,
    {
        let mut x = point.0;
        let mut y = point.1;
        if x >= length {
            x = length - 1;
        }
        if y >= height {
            y = height - 1;
        }
        proof {
            lemma_cell_index(x as int, y as int, length as int, height as int);
        }
        (y * length) + x
    }

    /// The index of `point`, read as a cell of a grid `length` cells wide.
    pub fn calc_cell_unbound(point: &(usize, usize), length: usize, height: usize) -> (r: usize)
        requires
            point.1 * length + point.0 <= usize::MAX,
        ensures
            r == cell_index(point.0 as int, point.1 as int, length as int),
            point.0 < length && point.1 < height ==> r < length * height,
    {
        proof {
            if point.0 < length && point.1 < height {
                lemma_cell_index(point.0 as int, point.1 as int, length as int, height as int);
            }
        }
        (point.1 * length) + point.0
    }

    /// The cell at index `key`.
    pub fn calc_pos_from_index(key: usize, length: usize, height: usize) -> (r: (usize, usize))
        requires
            0 < length,
        ensures
            r.0 == index_cell(key as int, length as int).0,
            r.1 == index_cell(key as int, length as int).1,
    {
        (key % length, key / length)
    }

    /// The cells, with their tiles, of the rectangle from `start` to `end`
    /// (both corners included), in index order.
    pub fn get_part(&self, start: (usize, usize), end: (usize, usize)) -> (r: Vec<((usize, usize), Tile)>)
        requires
            self.wf(),
        ensures
            r@ == self.part_upto(start, end, self.tiles@.len() as int),
    {
        let mut part: Vec<((usize, usize), Tile)> = Vec::new();
        let mut key: usize = 0;
        while key < self.tiles.len()
            invariant
                self.wf(),
                key <= self.tiles@.len(),
                part@ == self.part_upto(start, end, key as int),
            decreases self.tiles@.len() - key,
        {
            let loc = Grid::calc_pos_from_index(key, self.length, self.height);
            if loc.0 >= start.0 && loc.0 <= end.0 && loc.1 >= start.1 && loc.1 <= end.1 {
                part.push((loc, self.tiles[key]));
            }
            key += 1;
        }
        part
    }

    /// The cell and its tile, or `None` where `cell` lies outside the grid.
    pub fn get_cell(&self, cell: (usize, usize)) -> (r: Option<((usize, usize), Tile)>)
        requires
            self.wf(),
        ensures
            r == self.cell_spec(cell.0 as int, cell.1 as int),
    {
        if cell.0 > self.length - 1 || cell.1 > self.height - 1 {
            return None;
        }
        proof {
            lemma_cell_index(cell.0 as int, cell.1 as int, self.length as int, self.height as int);
        }
        let index = Grid::calc_cell_unbound(&cell, self.length, self.height);
        Some((Grid::calc_pos_from_index(index, self.length, self.height), self.tiles[index]))
    }
}

impl Grid {
    /// Takes the gun from the tile of `cell`: the tile's random gun where it
    /// holds one, after which it holds none. Outside the grid nothing
    /// happens.
    pub fn get_gun(&mut self, cell: &(usize, usize), rng: &mut rand::rngs::StdRng) -> (r: Option<Gun>)
        requires
            old(self).wf(),
        ensures
            final(self).wf(),
            final(self).length == old(self).length,
            final(self).height == old(self).height,
            final(self).start == old(self).start,
            r is Some <==> old(self).in_bounds(cell.0 as int, cell.1 as int) && old(self).tile_at(
                cell.0 as int,
                cell.1 as int,
            ).has_gun,
            r is Some ==> Tile::found_gun(r->0),
            old(self).in_bounds(cell.0 as int, cell.1 as int) ==> final(self).tiles@ == old(self).tiles@.update(
                cell_index(cell.0 as int, cell.1 as int, old(self).length as int),
                Tile { has_gun: false, ..old(self).tile_at(cell.0 as int, cell.1 as int) },
            ),
            !old(self).in_bounds(cell.0 as int, cell.1 as int) ==> final(self).tiles@ == old(self).tiles@,
    {
        if cell.0 > self.length - 1 || cell.1 > self.height - 1 {
            return None;
        }
        proof {
            lemma_cell_index(cell.0 as int, cell.1 as int, self.length as int, self.height as int);
        }
        let index = Grid::calc_cell_unbound(cell, self.length, self.height);
        let mut tile = self.tiles[index];
        let gun = tile.get_gun(rng);
        tile.has_gun = false;
        self.tiles.set(index, tile);
        gun
    }
}

/// A coordinate clamped into `[0, side - 1]`.
pub open spec fn clamp_coord(v: int, side: int) -> int {
    if v >= side {
        side - 1
    } else {
        v
    }
}

/// The row-major index of `p` once it is clamped into the grid.
pub open spec fn clamp_index(p: (usize, usize), length: int, height: int) -> int {
    cell_index(clamp_coord(p.0 as int, length), clamp_coord(p.1 as int, height), length)
}

/// `b` is one step from `a` in one of the four directions.
pub open spec fn is_step(a: (usize, usize), b: (usize, usize)) -> bool {
    ||| a.0 == b.0 && (a.1 + 1 == b.1 || b.1 + 1 == a.1)
    ||| a.1 == b.1 && (a.0 + 1 == b.0 || b.0 + 1 == a.0)
}

/// A walk over a grid of `length` by `height` cells: it starts on a cell of
/// the grid, moves one step at a time, and may reach one past the last
/// column or row, which the grid folds onto its last column or row.
pub open spec fn is_walk(walk: Seq<(usize, usize)>, length: int, height: int) -> bool {
    &&& walk.len() >= 1
    &&& walk[0].0 < length
    &&& walk[0].1 < height
    &&& forall|i: int| 0 <= i < walk.len() ==> #[trigger] walk[i].0 <= length && walk[i].1 <= height
    &&& forall|i: int| 0 <= i < walk.len() - 1 ==> is_step(#[trigger] walk[i], walk[i + 1])
}

/// The tile at index `i` of the grid a walk builds: passable where the walk
/// went, start where it began, end where it stopped, and a gun where
/// `guns` says so.
pub open spec fn walk_tile(
    walk: Seq<(usize, usize)>,
    guns: Seq<bool>,
    length: int,
    height: int,
    i: int,
) -> Tile {
    Tile {
        is_start: clamp_index(walk[0], length, height) == i,
        is_end: clamp_index(walk.last(), length, height) == i,
        can_move: exists|k: int| 0 <= k < walk.len() && clamp_index(#[trigger] walk[k], length, height) == i,
        has_gun: guns[i],
    }
}

/// The tiles of the grid a walk builds.
pub open spec fn walk_tiles(walk: Seq<(usize, usize)>, guns: Seq<bool>, length: int, height: int) -> Seq<Tile> {
    Seq::new((length * height) as nat, |i: int| walk_tile(walk, guns, length, height, i))
}

/// Where a walker at `at` goes on a draw of `d`: one step that way, or
/// nowhere where that step would leave `[0, length] x [0, height]`. Which
/// way is up does not matter to the walk.
pub open spec fn walk_step_spec(at: (usize, usize), d: Dir, length: int, height: int) -> Option<(usize, usize)> {
    match d {
        Dir::Down => if at.1 > 0 {
            Some((at.0, (at.1 - 1) as usize))
        } else {
            None
        },
        Dir::Up => if at.1 < height {
            Some((at.0, (at.1 + 1) as usize))
        } else {
            None
        },
        Dir::Left => if at.0 > 0 {
            Some(((at.0 - 1) as usize, at.1))
        } else {
            None
        },
        Dir::Right => if at.0 < length {
            Some(((at.0 + 1) as usize, at.1))
        } else {
            None
        },
    }
}

/// The walk from `start` over the draws `dirs`, which stops at its first
/// arrival at `exit`: the cells it visits, in order, and whether it
/// arrived.
pub open spec fn walk_spec(
    length: int,
    height: int,
    start: (usize, usize),
    exit: (usize, usize),
    dirs: Seq<Dir>,
) -> (Seq<(usize, usize)>, bool)
    decreases dirs.len(),
{
    if dirs.len() == 0 {
        (seq![start], start == exit)
    } else {
        let (p, done) = walk_spec(length, height, start, exit, dirs.drop_last());
        if done {
            (p, true)
        } else {
            match walk_step_spec(p.last(), dirs.last(), length, height) {
                Some(n) => (p.push(n), n == exit),
                None => (p, false),
            }
        }
    }
}

/// A walk over any draws is a walk that visits `exit` at most at its end,
/// and says it arrived exactly when it ends there.
pub proof fn lemma_walk_spec(length: int, height: int, start: (usize, usize), exit: (usize, usize), dirs: Seq<Dir>)
    requires
        start.0 < length <= usize::MAX,
        start.1 < height <= usize::MAX,
    ensures
        ({
            let (p, done) = walk_spec(length, height, start, exit, dirs);
            &&& is_walk(p, length, height)
            &&& p[0] == start
            &&& done == (p.last() == exit)
            &&& forall|k: int| 0 <= k < p.len() - 1 ==> p[k] != exit
        }),
    decreases dirs.len(),
{
    if dirs.len() > 0 {
        lemma_walk_spec(length, height, start, exit, dirs.drop_last());
        let (p, done) = walk_spec(length, height, start, exit, dirs.drop_last());
        if !done {
            if let Some(n) = walk_step_spec(p.last(), dirs.last(), length, height) {
                let q = p.push(n);
                assert(is_step(p.last(), n));
                assert forall|i: int| 0 <= i < q.len() - 1 implies is_step(#[trigger] q[i], q[i + 1]) by {
                    if i < p.len() - 1 {
                        assert(q[i] == p[i] && q[i + 1] == p[i + 1]);
                    } else {
                        assert(q[i] == p.last());
                    }
                }
                assert forall|k: int| 0 <= k < q.len() - 1 implies q[k] != exit by {
                    if k == p.len() - 1 {
                        assert(q[k] == p.last());
                    }
                }
            }
        }
    }
}

/// One draw of the walk: see `walk_step_spec`.
fn walk_step(at: (usize, usize), d: Dir, length: usize, height: usize) -> (r: Option<(usize, usize)>)
    ensures
        r == walk_step_spec(at, d, length as int, height as int),
{
    match d {
        Dir::Down => if at.1 > 0 {
            Some((at.0, at.1 - 1))
        } else {
            None
        },
        Dir::Up => if at.1 < height {
            Some((at.0, at.1 + 1))
        } else {
            None
        },
        Dir::Left => if at.0 > 0 {
            Some((at.0 - 1, at.1))
        } else {
            None
        },
        Dir::Right => if at.0 < length {
            Some((at.0 + 1, at.1))
        } else {
            None
        },
    }
}

/// The walk from `start` over the draws `dirs` (see `walk_spec`).
pub fn walk_with(
    length: usize,
    height: usize,
    start: (usize, usize),
    exit: (usize, usize),
    dirs: &Vec<Dir>,
) -> (r: (Vec<(usize, usize)>, bool))
    ensures
        (r.0@, r.1) == walk_spec(length as int, height as int, start, exit, dirs@),
{
    let mut path: Vec<(usize, usize)> = Vec::new();
    path.push(start);
    let mut reached = start.0 == exit.0 && start.1 == exit.1;
    let mut i: usize = 0;
    proof {
        assert(path@ =~= seq![start]);
        assert(dirs@.subrange(0, 0) =~= Seq::<Dir>::empty());
    }
    while i < dirs.len()
        invariant
            i <= dirs@.len(),
            path@.len() >= 1,
            (path@, reached) == walk_spec(length as int, height as int, start, exit, dirs@.subrange(0, i as int)),
        decreases dirs@.len() - i,
    {
        proof {
            let next = dirs@.subrange(0, i + 1);
            assert(next.drop_last() =~= dirs@.subrange(0, i as int));
            assert(next.last() == dirs@[i as int]);
        }
        if !reached {
            let at = path[path.len() - 1];
            if let Some(n) = walk_step(at, dirs[i], length, height) {
                path.push(n);
                reached = n.0 == exit.0 && n.1 == exit.1;
            }
        }
        i += 1;
    }
    proof {
        assert(dirs@.subrange(0, i as int) =~= dirs@);
    }
    (path, reached)
}

/// Draws a random walk from `start` that stops at `exit`, or after
/// `max_steps` draws: the walk of `walk_spec` over the directions drawn.
/// Says whether `exit` was reached.
pub fn random_walk(
    rng: &mut rand::rngs::StdRng,
    length: usize,
    height: usize,
    start: (usize, usize),
    exit: (usize, usize),
    max_steps: usize,
) -> (r: (Vec<(usize, usize)>, bool))
    requires
        start.0 < length,
        start.1 < height,
    ensures
        exists|dirs: Seq<Dir>|
            dirs.len() <= max_steps && (!r.1 ==> dirs.len() == max_steps) && (r.0@, r.1) == walk_spec(
                length as int,
                height as int,
                start,
                exit,
                dirs,
            ),
        is_walk(r.0@, length as int, height as int),
        r.0@[0] == start,
        r.1 == (r.0@.last() == exit),
        forall|k: int| 0 <= k < r.0@.len() - 1 ==> r.0@[k] != exit,
{
    let mut path: Vec<(usize, usize)> = Vec::new();
    path.push(start);
    let mut reached = start.0 == exit.0 && start.1 == exit.1;
    let mut steps: usize = 0;
    let ghost mut drawn: Seq<Dir> = Seq::empty();
    proof {
        assert(path@ =~= seq![start]);
    }
    while !reached && steps < max_steps
        invariant
            steps <= max_steps,
            drawn.len() == steps,
            path@.len() >= 1,
            (path@, reached) == walk_spec(length as int, height as int, start, exit, drawn),
        decreases max_steps - steps,
    {
        let d = Dir::random(rng);
        proof {
            let next = drawn.push(d);
            assert(next.drop_last() =~= drawn);
            drawn = next;
        }
        let at = path[path.len() - 1];
        if let Some(n) = walk_step(at, d, length, height) {
            path.push(n);
            reached = n.0 == exit.0 && n.1 == exit.1;
        }
        steps += 1;
    }
    proof {
        lemma_walk_spec(length as int, height as int, start, exit, drawn);
    }
    (path, reached)
}

/// Chance, in percent, that a tile holds a gun.
pub const GUN_CHANCE_PERCENT: usize = 2;

/// Draws a walk may spend before it gives up on reaching the exit.
pub const MAX_WALK_STEPS: usize = 1_000_000;

/// Walks generation draws, each from a fresh start and exit, before it
/// keeps a walk that did not reach its exit.
pub const MAX_WALK_ATTEMPTS: usize = 16;

/// Whether `a` and `b` are the same cell or neighbours in one of the four
/// directions.
pub open spec fn adjacent_or_same(a: (int, int), b: (int, int)) -> bool {
    ||| a == b
    ||| a.0 == b.0 && (a.1 + 1 == b.1 || b.1 + 1 == a.1)
    ||| a.1 == b.1 && (a.0 + 1 == b.0 || b.0 + 1 == a.0)
}

impl Grid {
    /// The grid is the one that `walk` builds, with guns where `guns` says.
    pub open spec fn built_from(&self, walk: Seq<(usize, usize)>, guns: Seq<bool>) -> bool {
        &&& self.wf()
        &&& is_walk(walk, self.length as int, self.height as int)
        &&& guns.len() == self.length * self.height
        &&& self.start == walk[0]
        &&& self.tiles@ == walk_tiles(walk, guns, self.length as int, self.height as int)
    }

    /// The grid is one that some walk builds.
    pub open spec fn is_generated(&self) -> bool {
        exists|walk: Seq<(usize, usize)>, guns: Seq<bool>| self.built_from(walk, guns)
    }

    /// The grid is one that some walk builds that visits `exit`, if at
    /// all, only at its end.
    pub open spec fn generated_toward(&self, exit: (usize, usize)) -> bool {
        exists|walk: Seq<(usize, usize)>, guns: Seq<bool>|
            self.built_from(walk, guns) && forall|k: int| 0 <= k < walk.len() - 1 ==> #[trigger] walk[k] != exit
    }

    /// `route` goes from `a` to `b` over passable cells, one step at a time.
    pub open spec fn is_route(&self, route: Seq<(int, int)>, a: (int, int), b: (int, int)) -> bool {
        &&& route.len() >= 1
        &&& route[0] == a
        &&& route.last() == b
        &&& forall|i: int| 0 <= i < route.len() ==> self.passable(#[trigger] route[i].0, route[i].1)
        &&& forall|i: int| 0 <= i < route.len() - 1 ==> adjacent_or_same(#[trigger] route[i], route[i + 1])
    }

    /// A search over passable cells from `a` finds `b`.
    pub open spec fn connected(&self, a: (int, int), b: (int, int)) -> bool {
        exists|route: Seq<(int, int)>| self.is_route(route, a, b)
    }

    /// The grid that `walk` builds: passable exactly where the walk went
    /// (clamped into the grid), start where it began, end where it
    /// stopped, and a gun on each tile whose entry in `guns` is set.
    pub fn from_walk(length: usize, height: usize, walk: &Vec<(usize, usize)>, guns: &Vec<bool>) -> (r: Grid)
        requires
            0 < length,
            side_fits(length as int),
            0 < height,
            side_fits(height as int),
            length * height <= usize::MAX,
            is_walk(walk@, length as int, height as int),
            guns@.len() == length * height,
        ensures
            r.built_from(walk@, guns@),
            r.length == length,
            r.height == height,
    {
        let n = length * height;
        let mut tiles: Vec<Tile> = Vec::new();
        let mut i: usize = 0;
        while i < n
            invariant
                n == length * height,
                guns@.len() == n,
                i <= n,
                tiles@.len() == i,
                forall|j: int|
                    0 <= j < i ==> #[trigger] tiles@[j] == (Tile {
                        is_start: false,
                        is_end: false,
                        can_move: false,
                        has_gun: guns@[j],
                    }),
            decreases n - i,
        {
            tiles.push(Tile { is_start: false, is_end: false, can_move: false, has_gun: guns[i] });
            i += 1;
        }
        let mut k: usize = 0;
        while k < walk.len()
            invariant
                0 < length,
                0 < height,
                n == length * height,
                n <= usize::MAX,
                guns@.len() == n,
                k <= walk@.len(),
                tiles@.len() == n,
                forall|j: int|
                    0 <= j < n ==> #[trigger] tiles@[j] == (Tile {
                        is_start: false,
                        is_end: false,
                        can_move: exists|m: int|
                            0 <= m < k && clamp_index(#[trigger] walk@[m], length as int, height as int) == j,
                        has_gun: guns@[j],
                    }),
            decreases walk@.len() - k,
        {
            let idx = Grid::calc_cell(&walk[k], length, height);
            let ghost old_tiles = tiles@;
            let mut t = tiles[idx];
            t.can_move = true;
            tiles.set(idx, t);
            proof {
                assert forall|j: int| 0 <= j < n implies #[trigger] tiles@[j] == (Tile {
                    is_start: false,
                    is_end: false,
                    can_move: exists|m: int|
                        0 <= m < k + 1 && clamp_index(#[trigger] walk@[m], length as int, height as int) == j,
                    has_gun: guns@[j],
                }) by {
                    if j == idx {
                        assert(clamp_index(walk@[k as int], length as int, height as int) == j);
                    } else {
                        assert(tiles@[j] == old_tiles[j]);
                        if exists|m: int|
                            0 <= m < k + 1 && clamp_index(#[trigger] walk@[m], length as int, height as int) == j {
                            let m = choose|m: int|
                                0 <= m < k + 1 && clamp_index(#[trigger] walk@[m], length as int, height as int) == j;
                            assert(m != k);
                        }
                    }
                }
            }
            k += 1;
        }
        let s = Grid::calc_cell(&walk[0], length, height);
        let mut t = tiles[s];
        t.is_start = true;
        tiles.set(s, t);
        let e = Grid::calc_cell(&walk[walk.len() - 1], length, height);
        let mut t = tiles[e];
        t.is_end = true;
        tiles.set(e, t);
        let r = Grid { tiles, length, height, start: walk[0] };
        assert(r.tiles@ =~= walk_tiles(walk@, guns@, length as int, height as int));
        r
    }

    /// Draws a start and an exit cell, a random walk between them and a
    /// gun roll for each tile, and builds the grid of that walk. A walk that
    /// does not reach its exit within `MAX_WALK_STEPS` draws is dropped and
    /// drawn again from a fresh start and exit; after `MAX_WALK_ATTEMPTS`
    /// walks the last one is kept, and ends where it stopped.
    pub fn new(length: usize, height: usize, rng: &mut rand::rngs::StdRng) -> (r: Grid)
        requires
            0 < length,
            side_fits(length as int),
            0 < height,
            side_fits(height as int),
            length * height <= usize::MAX,
        ensures
            r.is_generated(),
            exists|exit: (usize, usize)| exit.0 < length && exit.1 < height && r.generated_toward(exit),
            r.wf(),
            r.length == length,
            r.height == height,
            r.in_bounds(r.start.0 as int, r.start.1 as int),
    {
        let mut attempt: usize = 0;
        loop
            invariant
                0 < length,
            side_fits(length as int),
                0 < height,
            side_fits(height as int),
                length * height <= usize::MAX,
                attempt < MAX_WALK_ATTEMPTS,
            decreases MAX_WALK_ATTEMPTS - attempt,
        {
            let start = (random_range(rng, 0, length), random_range(rng, 0, height));
            let exit = (random_range(rng, 0, length), random_range(rng, 0, height));
            let (walk, reached) = random_walk(rng, length, height, start, exit, MAX_WALK_STEPS);
            attempt += 1;
            if reached || attempt >= MAX_WALK_ATTEMPTS {
                let guns = roll_guns(rng, length * height);
                let r = Grid::from_walk(length, height, &walk, &guns);
                assert(r.built_from(walk@, guns@));
                assert(r.generated_toward(exit));
                return r;
            }
        }
    }
}

/// One gun roll per tile: each holds a gun with chance `GUN_CHANCE_PERCENT`.
fn roll_guns(rng: &mut rand::rngs::StdRng, n: usize) -> (r: Vec<bool>)
    ensures
        r@.len() == n,
{
    let mut guns: Vec<bool> = Vec::new();
    let mut i: usize = 0;
    while i < n
        invariant
            i <= n,
            guns@.len() == i,
        decreases n - i,
    {
        guns.push(random_range(rng, 0, 100) < GUN_CHANCE_PERCENT);
        i += 1;
    }
    guns
}

/// The tile at a clamped walk point is the walk's tile at that point's index.
proof fn lemma_walk_point(g: Grid, walk: Seq<(usize, usize)>, guns: Seq<bool>, k: int)
    requires
        g.built_from(walk, guns),
        0 <= k < walk.len(),
    ensures
        g.passable(
            clamp_coord(walk[k].0 as int, g.length as int),
            clamp_coord(walk[k].1 as int, g.height as int),
        ),
        cell_index(
            clamp_coord(walk[k].0 as int, g.length as int),
            clamp_coord(walk[k].1 as int, g.height as int),
            g.length as int,
        ) == clamp_index(walk[k], g.length as int, g.height as int),
{
    let x = clamp_coord(walk[k].0 as int, g.length as int);
    let y = clamp_coord(walk[k].1 as int, g.height as int);
    assert(walk[k].0 <= g.length && walk[k].1 <= g.height);
    lemma_cell_index(x, y, g.length as int, g.height as int);
    let i = cell_index(x, y, g.length as int);
    assert(g.tiles@[i] == walk_tile(walk, guns, g.length as int, g.height as int, i));
    assert(clamp_index(walk[k], g.length as int, g.height as int) == i);
}

/// Two cells of a grid with the same index are the same cell.
proof fn lemma_cell_index_injective(x1: int, y1: int, x2: int, y2: int, length: int, height: int)
    requires
        0 <= x1 < length,
        0 <= y1 < height,
        0 <= x2 < length,
        0 <= y2 < height,
        cell_index(x1, y1, length) == cell_index(x2, y2, length),
    ensures
        x1 == x2,
        y1 == y2,
{
    lemma_cell_index(x1, y1, length, height);
    lemma_cell_index(x2, y2, length, height);
}

/// In every generated grid the start cell is passable and the one cell
/// marked as start, and exactly one cell is marked as end, which is
/// passable too.
pub proof fn lemma_generated_start_and_end(g: Grid)
    requires
        g.is_generated(),
    ensures
        g.passable(g.start.0 as int, g.start.1 as int),
        g.tile_at(g.start.0 as int, g.start.1 as int).is_start,
        forall|x: int, y: int|
            g.in_bounds(x, y) && #[trigger] g.tile_at(x, y).is_start ==> x == g.start.0 && y == g.start.1,
        exists|x: int, y: int| g.passable(x, y) && #[trigger] g.tile_at(x, y).is_end,
        forall|x1: int, y1: int, x2: int, y2: int|
            g.in_bounds(x1, y1) && g.in_bounds(x2, y2) && #[trigger] g.tile_at(x1, y1).is_end
                && #[trigger] g.tile_at(x2, y2).is_end ==> x1 == x2 && y1 == y2,
{
    let (walk, guns) = choose|walk: Seq<(usize, usize)>, guns: Seq<bool>| g.built_from(walk, guns);
    let w = g.length as int;
    let h = g.height as int;
    lemma_walk_point(g, walk, guns, 0);
    let last = walk.len() - 1;
    lemma_walk_point(g, walk, guns, last);
    let ex = clamp_coord(walk[last].0 as int, w);
    let ey = clamp_coord(walk[last].1 as int, h);
    assert(walk.last() == walk[last]);
    lemma_cell_index(ex, ey, w, h);
    assert(g.tile_at(ex, ey) == walk_tile(walk, guns, w, h, cell_index(ex, ey, w)));
    assert(g.passable(ex, ey) && g.tile_at(ex, ey).is_end);
    lemma_cell_index(g.start.0 as int, g.start.1 as int, w, h);
    assert forall|x: int, y: int| g.in_bounds(x, y) && #[trigger] g.tile_at(x, y).is_start implies x
        == g.start.0 && y == g.start.1 by {
        lemma_cell_index(x, y, w, h);
        assert(g.tile_at(x, y) == walk_tile(walk, guns, w, h, cell_index(x, y, w)));
        lemma_cell_index_injective(x, y, g.start.0 as int, g.start.1 as int, w, h);
    }
    assert forall|x1: int, y1: int, x2: int, y2: int|
        g.in_bounds(x1, y1) && g.in_bounds(x2, y2) && #[trigger] g.tile_at(x1, y1).is_end
            && #[trigger] g.tile_at(x2, y2).is_end implies x1 == x2 && y1 == y2 by {
        lemma_cell_index(x1, y1, w, h);
        lemma_cell_index(x2, y2, w, h);
        assert(g.tile_at(x1, y1) == walk_tile(walk, guns, w, h, cell_index(x1, y1, w)));
        assert(g.tile_at(x2, y2) == walk_tile(walk, guns, w, h, cell_index(x2, y2, w)));
        lemma_cell_index_injective(x1, y1, x2, y2, w, h);
    }
}

/// In every generated grid a search over passable cells from the start
/// cell reaches the cell marked as end.
pub proof fn lemma_generated_connected(g: Grid)
    requires
        g.is_generated(),
    ensures
        forall|x: int, y: int|
            g.in_bounds(x, y) && #[trigger] g.tile_at(x, y).is_end ==> g.connected(
                (g.start.0 as int, g.start.1 as int),
                (x, y),
            ),
{
    let (walk, guns) = choose|walk: Seq<(usize, usize)>, guns: Seq<bool>| g.built_from(walk, guns);
    let w = g.length as int;
    let h = g.height as int;
    let route = Seq::new(
        walk.len(),
        |k: int| (clamp_coord(walk[k].0 as int, w), clamp_coord(walk[k].1 as int, h)),
    );
    assert forall|i: int| 0 <= i < route.len() implies g.passable(#[trigger] route[i].0, route[i].1) by {
        lemma_walk_point(g, walk, guns, i);
    }
    assert forall|i: int| 0 <= i < route.len() - 1 implies adjacent_or_same(
        #[trigger] route[i],
        route[i + 1],
    ) by {
        assert(is_step(walk[i], walk[i + 1]));
    }
    let last = walk.len() - 1;
    assert(walk.last() == walk[last]);
    lemma_walk_point(g, walk, guns, last);
    assert forall|x: int, y: int| g.in_bounds(x, y) && #[trigger] g.tile_at(x, y).is_end implies g.connected(
        (g.start.0 as int, g.start.1 as int),
        (x, y),
    ) by {
        lemma_cell_index(x, y, w, h);
        assert(g.tile_at(x, y) == walk_tile(walk, guns, w, h, cell_index(x, y, w)));
        lemma_cell_index_injective(x, y, route[last].0, route[last].1, w, h);
        assert(g.is_route(route, (g.start.0 as int, g.start.1 as int), (x, y)));
    }
}

/// A walk that ends where it starts, without a step, builds a grid whose
/// one passable cell is its start, marked both start and end.
pub proof fn lemma_single_cell_walk(g: Grid, walk: Seq<(usize, usize)>, guns: Seq<bool>)
    requires
        g.built_from(walk, guns),
        walk.len() == 1,
    ensures
        forall|x: int, y: int| g.in_bounds(x, y) ==> (#[trigger] g.passable(x, y) <==> x == g.start.0 && y == g.start.1),
        g.tile_at(g.start.0 as int, g.start.1 as int).is_start,
        g.tile_at(g.start.0 as int, g.start.1 as int).is_end,
{
    let w = g.length as int;
    let h = g.height as int;
    assert(walk.last() == walk[0]);
    lemma_walk_point(g, walk, guns, 0);
    let (sx, sy) = (g.start.0 as int, g.start.1 as int);
    lemma_cell_index(sx, sy, w, h);
    assert(g.tile_at(sx, sy) == walk_tile(walk, guns, w, h, cell_index(sx, sy, w)));
    assert forall|x: int, y: int| g.in_bounds(x, y) implies (#[trigger] g.passable(x, y) <==> x == g.start.0 && y
        == g.start.1) by {
        lemma_cell_index(x, y, w, h);
        assert(g.tile_at(x, y) == walk_tile(walk, guns, w, h, cell_index(x, y, w)));
        if g.passable(x, y) {
            let k = choose|k: int| 0 <= k < walk.len() && clamp_index(#[trigger] walk[k], w, h) == cell_index(x, y, w);
            assert(k == 0);
            lemma_cell_index_injective(x, y, g.start.0 as int, g.start.1 as int, w, h);
        }
    }
}

/// A generated grid whose walk was drawn with its exit on its start has
/// one passable cell, the start, marked both start and end.
pub proof fn lemma_generated_start_is_exit(g: Grid)
    requires
        g.generated_toward(g.start),
    ensures
        forall|x: int, y: int| g.in_bounds(x, y) ==> (#[trigger] g.passable(x, y) <==> x == g.start.0 && y == g.start.1),
        g.tile_at(g.start.0 as int, g.start.1 as int).is_start,
        g.tile_at(g.start.0 as int, g.start.1 as int).is_end,
{
    let (walk, guns) = choose|walk: Seq<(usize, usize)>, guns: Seq<bool>|
        g.built_from(walk, guns) && forall|k: int| 0 <= k < walk.len() - 1 ==> #[trigger] walk[k] != g.start;
    if walk.len() > 1 {
        assert(walk[0] != g.start);
    }
    lemma_single_cell_walk(g, walk, guns);
}

} // verus!

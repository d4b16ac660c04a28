//! The static data of one grid cell.

use vstd::prelude::*;
use crate::gun::{get_random_name, Gun, ShapeChoise};
use crate::random::random_range;

verus! {

#[derive(Debug, Clone, Copy, PartialEq, Eq, Structural)]
pub struct Tile {
    pub is_start: bool,
    pub is_end: bool,
    pub can_move: bool,
    pub has_gun: bool,
}

impl Tile {
    /// What a gun found on a tile is like: one or two patterns of one or
    /// two steps, a cooldown in `15..25`, damage in `-10..10` and speed in
    /// `10..20`.
    pub open spec fn found_gun(g: Gun) -> bool {
        &&& 1 <= g.patterns@.len() <= 2
        &&& g.patterns_within(1, 2)
        &&& 15 <= g.cooldown < 25
        &&& -10 <= g.damage < 10
        &&& 10 <= g.speed < 20
    }

    /// The random gun the tile holds, if it holds one.
    pub fn get_gun(&self, rng: &mut rand::rngs::StdRng) -> (r: Option<Gun>)
        ensures
            r is Some <==> self.has_gun,
            r is Some ==> Tile::found_gun(r->0),
    {
        if !self.has_gun {
            return None;
        }
        let mut patterns: Vec<Vec<i8>> = Vec::new();
        let count = random_range(rng, 2, 4) - 1;
        let mut i: usize = 0;
        while i < count
            invariant
                1 <= count <= 2,
                i <= count,
                patterns@.len() == i,
                forall|k: int|
                    0 <= k < i ==> {
                        let p = #[trigger] patterns@[k]@;
                        &&& 1 <= p.len() <= 2
                        &&& forall|j: int| 0 <= j < p.len() ==> 0 <= #[trigger] p[j] < 4
                    },
            decreases count - i,
        {
            let mut pattern: Vec<i8> = Vec::new();
            let steps = random_range(rng, 2, 4) - 1;
            let mut j: usize = 0;
            while j < steps
                invariant
                    1 <= steps <= 2,
                    j <= steps,
                    pattern@.len() == j,
                    forall|m: int| 0 <= m < j ==> 0 <= #[trigger] pattern@[m] < 4,
                decreases steps - j,
            {
                pattern.push(random_range(rng, 0, 4) as i8);
                j += 1;
            }
            patterns.push(pattern);
            i += 1;
        }
        let cooldown = random_range(rng, 15, 25);
        let damage = random_range(rng, 0, 20) as isize - 10;
        let speed = random_range(rng, 10, 20);
        let name = get_random_name(rng);
        let shape = ShapeChoise::random(rng);
        Some(Gun { cooldown, patterns, damage, speed, name, shape })
    }
}

} // verus!

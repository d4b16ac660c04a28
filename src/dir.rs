//! The four cardinal directions.

use vstd::prelude::*;
use crate::random::random_range;

verus! {

#[derive(Debug, Clone, Copy, PartialEq, Eq, Structural)]
pub enum Dir {
    Up,
    Down,
    Left,
    Right,
}

/// The number of a direction: `Up` 0, `Left` 1, `Down` 2, `Right` 3,
/// counting quarter turns anticlockwise from `Up`.
pub open spec fn dir_code(d: Dir) -> u8 {
    match d {
        Dir::Up => 0,
        Dir::Left => 1,
        Dir::Down => 2,
        Dir::Right => 3,
    }
}

/// The direction of a number; every number from 3 on is `Right`.
pub open spec fn dir_of_code(v: u8) -> Dir {
    if v == 0 {
        Dir::Up
    } else if v == 1 {
        Dir::Left
    } else if v == 2 {
        Dir::Down
    } else {
        Dir::Right
    }
}

impl Dir {
    /// The direction numbered `v` (see `dir_code`).
    pub fn from_code(v: u8) -> (r: Dir)
        ensures
            r == dir_of_code(v),
    {
        match v {
            0 => Dir::Up,
            1 => Dir::Left,
            2 => Dir::Down,
            _ => Dir::Right,
        }
    }

    /// The number of this direction (see `dir_code`).
    pub fn code(self) -> (r: u8)
        ensures
            r == dir_code(self),
            r < 4,
    {
        match self {
            Dir::Up => 0,
            Dir::Left => 1,
            Dir::Down => 2,
            Dir::Right => 3,
        }
    }

    /// A direction drawn uniformly from the four.
    pub fn random(rng: &mut rand::rngs::StdRng) -> (r: Dir) {
        let v = random_range(rng, 0, 4);
        Dir::from_code(v as u8)
    }
}

impl From<u8> for Dir {
    fn from(v: u8) -> (r: Dir) {
        Dir::from_code(v)
    }
}

impl vstd::std_specs::convert::FromSpecImpl<u8> for Dir {
    open spec fn obeys_from_spec() -> bool {
        true
    }

    open spec fn from_spec(v: u8) -> Dir {
        dir_of_code(v)
    }
}

impl From<Dir> for u8 {
    fn from(v: Dir) -> (r: u8) {
        v.code()
    }
}

impl vstd::std_specs::convert::FromSpecImpl<Dir> for u8 {
    open spec fn obeys_from_spec() -> bool {
        true
    }

    open spec fn from_spec(v: Dir) -> u8 {
        dir_code(v)
    }
}

} // verus!

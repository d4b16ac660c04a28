//! Guns: how often they fire, the paths of their bullets, and their damage.

use vstd::prelude::*;
use crate::random::{chars_to_string, choose_item, random_range};

verus! {

#[derive(Debug, Clone, Copy, PartialEq, Eq, Structural)]
pub enum ShapeChoise {
    Rectangle,
    Circle,
    Triangle,
}

/// The shape numbered `v`; every number from 2 on is `Triangle`.
pub open spec fn shape_of_code(v: u8) -> ShapeChoise {
    if v == 0 {
        ShapeChoise::Rectangle
    } else if v == 1 {
        ShapeChoise::Circle
    } else {
        ShapeChoise::Triangle
    }
}

impl ShapeChoise {
    /// The shape numbered `v` (see `shape_of_code`).
    pub fn from_code(v: u8) -> (r: ShapeChoise)
        ensures
            r == shape_of_code(v),
    {
        match v {
            0 => ShapeChoise::Rectangle,
            1 => ShapeChoise::Circle,
            _ => ShapeChoise::Triangle,
        }
    }

    /// A shape drawn uniformly from the three.
    pub fn random(rng: &mut rand::rngs::StdRng) -> (r: ShapeChoise) {
        let v = random_range(rng, 0, 3);
        ShapeChoise::from_code(v as u8)
    }
}

impl From<u8> for ShapeChoise {
    fn from(v: u8) -> (r: ShapeChoise) {
        ShapeChoise::from_code(v)
    }
}

impl vstd::std_specs::convert::FromSpecImpl<u8> for ShapeChoise {
    open spec fn obeys_from_spec() -> bool {
        true
    }

    open spec fn from_spec(v: u8) -> ShapeChoise {
        shape_of_code(v)
    }
}

/// A relative direction brought into `0..4` where it lies within four of
/// that range: `0` forward, `1` right, `2` back, `3` left.
pub open spec fn normalize_turn(v: int) -> int {
    if v < 0 {
        v + 4
    } else if v > 3 {
        v - 4
    } else {
        v
    }
}

/// The letter shown for a relative direction: `F`, `R`, `B`, or `L` for
/// anything else.
pub open spec fn turn_label(v: i8) -> char {
    let w = normalize_turn(v as int);
    if w == 0 {
        'F'
    } else if w == 1 {
        'R'
    } else if w == 2 {
        'B'
    } else {
        'L'
    }
}

/// The letters of a fire pattern, one per step.
pub fn pattern_label(pattern: &Vec<i8>) -> (r: Vec<char>)
    ensures
        r@.len() == pattern@.len(),
        forall|i: int| 0 <= i < pattern@.len() ==> r@[i] == turn_label(#[trigger] pattern@[i]),
{
    let mut label: Vec<char> = Vec::new();
    let mut i: usize = 0;
    while i < pattern.len()
        invariant
            i <= pattern@.len(),
            label@.len() == i,
            forall|j: int| 0 <= j < i ==> label@[j] == turn_label(#[trigger] pattern@[j]),
        decreases pattern@.len() - i,
    {
        let v = pattern[i];
        let w: i8 = if v < 0 {
            v + 4
        } else if v > 3 {
            v - 4
        } else {
            v
        };
        let c = if w == 0 {
            'F'
        } else if w == 1 {
            'R'
        } else if w == 2 {
            'B'
        } else {
            'L'
        };
        label.push(c);
        i += 1;
    }
    label
}

/// The characters a gun's name is made of.
pub open spec fn glitch_char_seq() -> Seq<char> {
    seq![
        '\u{1F490}', '\u{2588}', '\u{2588}', '\u{2588}', '\u{2592}', '\u{2592}', '\u{2591}', '\u{2588}',
        '\u{2588}', '\u{2592}', '\u{0BF5}', 'A', 'B', 'C', 'D', 'E', 'F', 'G', 'H', 'I', 'J', 'K', 'L', 'M',
        'N', 'O', 'P', 'Q', 'R', 'S', 'T', 'U', 'F', 'W', 'X', 'Y', 'Z', 'a', 'b', 'c', 'd', 'e', 'f', 'g',
        'h', 'i', 'j', 'k', 'l', 'm', 'n', 'o', 'p', 'q', 'r', 's', 't', 'u', 'v', 'w', 'x', 'y', 'z', '1',
        '2', '3', '4', '5', '6', '7', '8', '9', '0', '!', '@', '#', '$', '%', '^', '&', '*', '(', ')',
    ]
}

/// The characters a gun's name is made of.
pub fn glitch_chars() -> (r: Vec<char>)
    ensures
        r@ == glitch_char_seq(),
{
    let r = vec![
        '\u{1F490}', '\u{2588}', '\u{2588}', '\u{2588}', '\u{2592}', '\u{2592}', '\u{2591}', '\u{2588}',
        '\u{2588}', '\u{2592}', '\u{0BF5}', 'A', 'B', 'C', 'D', 'E', 'F', 'G', 'H', 'I', 'J', 'K', 'L', 'M',
        'N', 'O', 'P', 'Q', 'R', 'S', 'T', 'U', 'F', 'W', 'X', 'Y', 'Z', 'a', 'b', 'c', 'd', 'e', 'f', 'g',
        'h', 'i', 'j', 'k', 'l', 'm', 'n', 'o', 'p', 'q', 'r', 's', 't', 'u', 'v', 'w', 'x', 'y', 'z', '1',
        '2', '3', '4', '5', '6', '7', '8', '9', '0', '!', '@', '#', '$', '%', '^', '&', '*', '(', ')',
    ];
    assert(r@ =~= glitch_char_seq());
    r
}

/// A random name of five to seven characters, each drawn from the glitch
/// characters.
pub fn get_random_name(rng: &mut rand::rngs::StdRng) -> (r: String)
    ensures
        5 <= r@.len() < 8,
        forall|i: int| 0 <= i < r@.len() ==> glitch_char_seq().contains(#[trigger] r@[i]),
{
    let chars = glitch_chars();
    let n = random_range(rng, 5, 8);
    let mut name: Vec<char> = Vec::new();
    let mut i: usize = 0;
    while i < n
        invariant
            chars@ == glitch_char_seq(),
            i <= n,
            name@.len() == i,
            forall|j: int| 0 <= j < i ==> glitch_char_seq().contains(#[trigger] name@[j]),
        decreases n - i,
    {
        let c = choose_item(rng, &chars);
        match c {
            Some(c) => name.push(c),
            None => {
                assert(chars@[0] == '\u{1F490}');
                assert(false);
            },
        }
        i += 1;
    }
    chars_to_string(&name)
}

#[derive(Clone, Debug)]
pub struct Gun {
    /// Ticks between two shots.
    pub cooldown: usize,
    /// One fire pattern per bullet of a shot: the relative directions the
    /// bullet steps through each tick.
    pub patterns: Vec<Vec<i8>>,
    /// Damage each bullet deals.
    pub damage: isize,
    /// Pixels a bullet travels per pattern step.
    pub speed: usize,
    pub name: String,
    pub shape: ShapeChoise,
}

impl Gun {
    /// The fire patterns as sequences.
    pub open spec fn pattern_seqs(&self) -> Seq<Seq<i8>> {
        self.patterns@.map_values(|p: Vec<i8>| p@)
    }

    /// `self` and `other` are the same gun.
    pub open spec fn same_as(&self, other: &Gun) -> bool {
        &&& self.cooldown == other.cooldown
        &&& self.pattern_seqs() == other.pattern_seqs()
        &&& self.damage == other.damage
        &&& self.speed == other.speed
        &&& self.name@ == other.name@
        &&& self.shape == other.shape
    }

    /// A gun with the given properties.
    pub fn new(
        cooldown: usize,
        patterns: Vec<Vec<i8>>,
        damage: isize,
        speed: usize,
        name: &str,
        shape: ShapeChoise,
    ) -> (r: Gun)
        ensures
            r.cooldown == cooldown,
            r.patterns@ == patterns@,
            r.damage == damage,
            r.speed == speed,
            r.name@ == name@,
            r.shape == shape,
    {
        Gun { cooldown, patterns, damage, speed, name: name.to_owned(), shape }
    }

    /// A copy of the gun.
    pub fn duplicate(&self) -> (r: Gun)
        ensures
            r.same_as(self),
    {
        let mut patterns: Vec<Vec<i8>> = Vec::new();
        let mut i: usize = 0;
        while i < self.patterns.len()
            invariant
                i <= self.patterns@.len(),
                patterns@.len() == i,
                forall|j: int| 0 <= j < i ==> (#[trigger] patterns@[j])@ == self.patterns@[j]@,
            decreases self.patterns@.len() - i,
        {
            patterns.push(self.patterns[i].clone());
            i += 1;
        }
        let r = Gun {
            cooldown: self.cooldown,
            patterns,
            damage: self.damage,
            speed: self.speed,
            name: self.name.clone(),
            shape: self.shape,
        };
        assert(r.pattern_seqs() =~= self.pattern_seqs());
        r
    }

    /// Each pattern has between `min_steps` and `max_steps` steps, each a
    /// relative direction in `0..4`.
    pub open spec fn patterns_within(&self, min_steps: int, max_steps: int) -> bool {
        forall|i: int|
            0 <= i < self.patterns@.len() ==> {
                let p = #[trigger] self.patterns@[i]@;
                &&& min_steps <= p.len() <= max_steps
                &&& forall|j: int| 0 <= j < p.len() ==> 0 <= #[trigger] p[j] < 4
            }
    }

    /// A random gun: three patterns of three steps, a cooldown in
    /// `15..25`, damage in `-7..7`, speed in `10..20`, a random name and a
    /// random shape.
    pub fn new_random(rng: &mut rand::rngs::StdRng) -> (r: Gun)
        ensures
            r.patterns@.len() == 3,
            r.patterns_within(3, 3),
            15 <= r.cooldown < 25,
            -7 <= r.damage < 7,
            10 <= r.speed < 20,
    {
        let patterns = random_patterns(rng, 3, 3);
        let cooldown = random_range(rng, 15, 25);
        let damage = random_range(rng, 0, 14) as isize - 7;
        let speed = random_range(rng, 10, 20);
        let name = get_random_name(rng);
        let shape = ShapeChoise::random(rng);
        Gun { cooldown, patterns, damage, speed, name, shape }
    }
}

/// `count` patterns of `steps` random relative directions each.
pub(crate) fn random_patterns(rng: &mut rand::rngs::StdRng, count: usize, steps: usize) -> (r: Vec<Vec<i8>>)
    ensures
        r@.len() == count,
        forall|i: int|
            0 <= i < count ==> {
                let p = #[trigger] r@[i]@;
                &&& p.len() == steps
                &&& forall|j: int| 0 <= j < p.len() ==> 0 <= #[trigger] p[j] < 4
            },
{
    let mut patterns: Vec<Vec<i8>> = Vec::new();
    let mut i: usize = 0;
    while i < count
        invariant
            i <= count,
            patterns@.len() == i,
            forall|k: int|
                0 <= k < i ==> {
                    let p = #[trigger] patterns@[k]@;
                    &&& p.len() == steps
                    &&& forall|j: int| 0 <= j < p.len() ==> 0 <= #[trigger] p[j] < 4
                },
        decreases count - i,
    {
        let mut pattern: Vec<i8> = Vec::new();
        let mut j: usize = 0;
        while j < steps
            invariant
                j <= steps,
                pattern@.len() == j,
                forall|m: int| 0 <= m < j ==> 0 <= #[trigger] pattern@[m] < 4,
            decreases steps - j,
        {
            pattern.push(random_range(rng, 0, 4) as i8);
            j += 1;
        }
        patterns.push(pattern);
        i += 1;
    }
    patterns
}

} // verus!

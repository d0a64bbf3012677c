use vstd::prelude::*;

verus! {

/// Your run of the mill cardinal direction
#[derive(Clone, Copy, PartialEq, Eq, Structural, Debug)]
pub enum Dir {
    North,
    South,
    West,
    East,
}

impl Dir {
    /// The fixed successor in the compass cycle North -> East -> South -> West.
    pub open spec fn cycle_spec(self) -> Dir {
        match self {
            Dir::North => Dir::East,
            Dir::East => Dir::South,
            Dir::South => Dir::West,
            Dir::West => Dir::North,
        }
    }

    /// Cycle through all directions
    pub fn cycle(self) -> (r: Self)
        ensures
            r == self.cycle_spec(),
    {
        match self {
            Dir::North => Dir::East,
            Dir::East => Dir::South,
            Dir::South => Dir::West,
            Dir::West => Dir::North,
        }
    }
}

/// Applying `cycle` four times to any direction returns the original
/// direction, and the three intermediate directions are all distinct
/// from it and from each other: the cycle visits every direction.
pub proof fn lemma_cycle_closure(d: Dir)
    ensures
        d.cycle_spec().cycle_spec().cycle_spec().cycle_spec() == d,
        d.cycle_spec() != d,
        d.cycle_spec().cycle_spec() != d,
        d.cycle_spec().cycle_spec().cycle_spec() != d,
        d.cycle_spec() != d.cycle_spec().cycle_spec(),
        d.cycle_spec() != d.cycle_spec().cycle_spec().cycle_spec(),
        d.cycle_spec().cycle_spec() != d.cycle_spec().cycle_spec().cycle_spec(),
{
}

/// Trait for coordinate like things that can be moved in a particular direction
pub trait Advance<T>: Sized {
    /// Whether the move stays within the coordinate type's range.
    spec fn advance_req(self, dir: Dir, steps: T) -> bool;

    /// The coordinates after one move of `steps` in direction `dir`.
    spec fn advance_spec(self, dir: Dir, steps: T) -> Self;

    fn advance(self, dir: Dir, steps: T) -> (r: Self)
        requires
            self.advance_req(dir, steps),
        ensures
            r == self.advance_spec(dir, steps),
    ;
}

impl Advance<i32> for (i32, i32) {
    open spec fn advance_req(self, dir: Dir, steps: i32) -> bool {
        match dir {
            Dir::East => i32::MIN <= self.0 + steps <= i32::MAX,
            Dir::West => i32::MIN <= self.0 - steps <= i32::MAX,
            Dir::South => i32::MIN <= self.1 + steps <= i32::MAX,
            Dir::North => i32::MIN <= self.1 - steps <= i32::MAX,
        }
    }

    open spec fn advance_spec(self, dir: Dir, steps: i32) -> (i32, i32) {
        match dir {
            Dir::East => (((self.0 + steps) as i32, self.1)),
            Dir::West => (((self.0 - steps) as i32, self.1)),
            Dir::South => ((self.0, (self.1 + steps) as i32)),
            Dir::North => ((self.0, (self.1 - steps) as i32)),
        }
    }

    fn advance(self, dir: Dir, steps: i32) -> (r: Self) {
        let (x, y) = self;
        (
            match dir {
                Dir::East => x + steps,
                Dir::West => x - steps,
                _ => x,
            },
            match dir {
                Dir::North => y - steps,
                Dir::South => y + steps,
                _ => y,
            },
        )
    }
}

} // verus!

//! The four ways a piece can face, and the quarter turns between them.

use vstd::prelude::*;

verus! {

/// The way a piece faces. A new piece faces south.
#[derive(Debug, Clone, Copy, PartialEq, Eq, Structural)]
pub enum Direction {
    South,
    East,
    North,
    West,
}

impl Direction {
    /// The direction a quarter turn clockwise from this one.
    pub open spec fn spec_clockwise(self) -> Direction {
        match self {
            Direction::South => Direction::East,
            Direction::East => Direction::North,
            Direction::North => Direction::West,
            Direction::West => Direction::South,
        }
    }

    /// The direction a quarter turn counter-clockwise from this one.
    pub open spec fn spec_counter_clockwise(self) -> Direction {
        match self {
            Direction::South => Direction::West,
            Direction::East => Direction::South,
            Direction::North => Direction::East,
            Direction::West => Direction::North,
        }
    }

    /// The direction after one quarter turn, clockwise or not.
    pub open spec fn spec_rotated(self, clockwise: bool) -> Direction {
        if clockwise {
            self.spec_clockwise()
        } else {
            self.spec_counter_clockwise()
        }
    }

    /// The direction a quarter turn clockwise from this one.
    pub fn clockwise(self) -> (next: Direction)
        ensures
            next == self.spec_clockwise(),
    {
        match self {
            Direction::South => Direction::East,
            Direction::East => Direction::North,
            Direction::North => Direction::West,
            Direction::West => Direction::South,
        }
    }

    /// The direction a quarter turn counter-clockwise from this one.
    pub fn counter_clockwise(self) -> (next: Direction)
        ensures
            next == self.spec_counter_clockwise(),
    {
        match self {
            Direction::South => Direction::West,
            Direction::East => Direction::South,
            Direction::North => Direction::East,
            Direction::West => Direction::North,
        }
    }

    /// The direction after one quarter turn, clockwise or not.
    pub fn rotated(self, clockwise: bool) -> (next: Direction)
        ensures
            next == self.spec_rotated(clockwise),
    {
        if clockwise {
            self.clockwise()
        } else {
            self.counter_clockwise()
        }
    }
}

/// Four quarter turns clockwise lead back to the direction they started
/// from, and fewer than four do not.
pub proof fn lemma_clockwise_is_a_four_cycle(d: Direction)
    ensures
        d.spec_clockwise().spec_clockwise().spec_clockwise().spec_clockwise() == d,
        d.spec_clockwise() != d,
        d.spec_clockwise().spec_clockwise() != d,
        d.spec_clockwise().spec_clockwise().spec_clockwise() != d,
{
}

/// Four quarter turns counter-clockwise lead back to the direction they
/// started from.
pub proof fn lemma_counter_clockwise_is_a_four_cycle(d: Direction)
    ensures
        d.spec_counter_clockwise().spec_counter_clockwise().spec_counter_clockwise()
            .spec_counter_clockwise() == d,
{
}

/// A quarter turn one way undoes a quarter turn the other way.
pub proof fn lemma_turns_are_inverse(d: Direction)
    ensures
        d.spec_clockwise().spec_counter_clockwise() == d,
        d.spec_counter_clockwise().spec_clockwise() == d,
{
}

} // verus!

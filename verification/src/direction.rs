//! The eight discrete headings of the grid.

use vstd::prelude::*;
use crate::util::random_between;

verus! {

/// One of the eight discrete headings an entity can move along.
#[derive(PartialEq, Eq, Structural, Clone, Copy, Debug)]
pub enum Direction {
    Left,
    Right,
    LeftUp,
    RightUp,
    LeftDown,
    RightDown,
    Up,
    Down,
}

impl Direction {
    /// Change of the row index made by one step along this heading. Rows grow
    /// downward.
    pub open spec fn row_step(self) -> int {
        match self {
            Direction::Up | Direction::LeftUp | Direction::RightUp => -1,
            Direction::Down | Direction::LeftDown | Direction::RightDown => 1,
            Direction::Left | Direction::Right => 0,
        }
    }

    /// Change of the column index made by one step along this heading.
    pub open spec fn col_step(self) -> int {
        match self {
            Direction::Left | Direction::LeftUp | Direction::LeftDown => -1,
            Direction::Right | Direction::RightUp | Direction::RightDown => 1,
            Direction::Up | Direction::Down => 0,
        }
    }

    /// The heading that undoes this one.
    pub open spec fn spec_opposite(self) -> Direction {
        match self {
            Direction::Up => Direction::Down,
            Direction::Left => Direction::Right,
            Direction::Right => Direction::Left,
            Direction::Down => Direction::Up,
            Direction::LeftDown => Direction::RightUp,
            Direction::LeftUp => Direction::RightDown,
            Direction::RightDown => Direction::LeftUp,
            Direction::RightUp => Direction::LeftDown,
        }
    }

    /// Returns the heading that undoes this one.
    #[verifier::when_used_as_spec(spec_opposite)]
    pub fn opposite(self) -> (r: Direction)
        ensures
            r == self.spec_opposite(),
    {
        match self {
            Direction::Up => Direction::Down,
            Direction::Left => Direction::Right,
            Direction::Right => Direction::Left,
            Direction::Down => Direction::Up,
            Direction::LeftDown => Direction::RightUp,
            Direction::LeftUp => Direction::RightDown,
            Direction::RightDown => Direction::LeftUp,
            Direction::RightUp => Direction::LeftDown,
        }
    }

    /// The heading a projectile takes when it bounces off the border: vertical
    /// headings flip, upward diagonals swap sides, anything else turns upward.
    pub open spec fn spec_mirrored(self) -> Direction {
        match self {
            Direction::Up => Direction::Down,
            Direction::Down => Direction::Up,
            Direction::LeftUp => Direction::RightUp,
            Direction::RightUp => Direction::LeftUp,
            _ => Direction::Up,
        }
    }

    /// Returns the heading a projectile takes when it bounces off the border.
    #[verifier::when_used_as_spec(spec_mirrored)]
    pub fn mirrored(self) -> (r: Direction)
        ensures
            r == self.spec_mirrored(),
    {
        match self {
            Direction::Up => Direction::Down,
            Direction::Down => Direction::Up,
            Direction::LeftUp => Direction::RightUp,
            Direction::RightUp => Direction::LeftUp,
            _ => Direction::Up,
        }
    }

    /// The heading chosen by a draw: zero picks the left upward diagonal, any
    /// other number the right one.
    pub open spec fn spec_from_draw(draw: i32) -> Direction {
        if draw == 0 {
            Direction::LeftUp
        } else {
            Direction::RightUp
        }
    }

    /// Turns a drawn number into one of the two upward diagonals.
    #[verifier::when_used_as_spec(spec_from_draw)]
    pub fn from_draw(draw: i32) -> (r: Direction)
        ensures
            r == Direction::spec_from_draw(draw),
    {
        if draw == 0 {
            Direction::LeftUp
        } else {
            Direction::RightUp
        }
    }

    /// Whether this heading is one of the two sideways headings.
    pub open spec fn is_sideways(self) -> bool {
        self == Direction::Left || self == Direction::Right
    }

    /// Whether a formation can take this heading: left, right or down, or up
    /// while it retreats.
    pub open spec fn is_formation_heading(self) -> bool {
        self == Direction::Left || self == Direction::Right || self == Direction::Down
            || self == Direction::Up
    }

    /// Whether this heading is one of the two upward diagonals, the only
    /// headings a random draw produces.
    pub open spec fn is_upward_diagonal(self) -> bool {
        self == Direction::LeftUp || self == Direction::RightUp
    }

    /// Draws one of the two upward diagonals at random.
    pub fn sample() -> (r: Direction)
        ensures
            r.is_upward_diagonal(),
    {
        Direction::from_draw(random_between(0, 2))
    }
}

} // verus!

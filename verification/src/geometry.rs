//! Coordinate and direction primitives: pure values, no state.

use vstd::prelude::*;

verus! {

/// One of the four headings the snake can take. There is no "stay" value, and
/// nothing here blocks a reversal onto the opposite heading.
#[derive(Clone, Copy, Debug, PartialEq, Eq, Structural)]
pub enum Direction {
    Up,
    Down,
    Left,
    Right,
}

impl Direction {
    /// The heading that undoes this one.
    pub open spec fn opposite(self) -> Direction {
        match self {
            Direction::Up => Direction::Down,
            Direction::Down => Direction::Up,
            Direction::Left => Direction::Right,
            Direction::Right => Direction::Left,
        }
    }
}

/// A cell of the character grid. A coordinate is on the board when both fields
/// are below the board's dimensions (the grid starts at the origin).
#[derive(Clone, Copy, Debug, PartialEq, Eq, Structural)]
pub struct Coordinate {
    pub x: u16,
    pub y: u16,
}

impl Coordinate {
    /// Whether one step in `direction` stays representable: the step neither
    /// takes a field below zero nor above the largest cell index.
    pub open spec fn can_step_in(self, direction: Direction) -> bool {
        match direction {
            Direction::Up => self.y > 0,
            Direction::Down => self.y < u16::MAX,
            Direction::Left => self.x > 0,
            Direction::Right => self.x < u16::MAX,
        }
    }

    /// The coordinate one unit away in `direction`.
    pub open spec fn spec_step_in(self, direction: Direction) -> Coordinate {
        match direction {
            Direction::Up => Coordinate { x: self.x, y: (self.y - 1) as u16 },
            Direction::Down => Coordinate { x: self.x, y: (self.y + 1) as u16 },
            Direction::Left => Coordinate { x: (self.x - 1) as u16, y: self.y },
            Direction::Right => Coordinate { x: (self.x + 1) as u16, y: self.y },
        }
    }

    /// Offsets the coordinate by one unit in `direction`. No bounds checking
    /// against a board happens here: the caller holds the result against the
    /// board before accepting it as a new head.
    pub fn step_in(self, direction: Direction) -> (stepped: Coordinate)
        requires
            self.can_step_in(direction),
        ensures
            stepped == self.spec_step_in(direction),
    {
        match direction {
            Direction::Up => Coordinate { x: self.x, y: self.y - 1 },
            Direction::Down => Coordinate { x: self.x, y: self.y + 1 },
            Direction::Left => Coordinate { x: self.x - 1, y: self.y },
            Direction::Right => Coordinate { x: self.x + 1, y: self.y },
        }
    }

    /// Whether the coordinate lies on a board of the given dimensions.
    pub open spec fn in_bounds(self, bounds: Coordinate) -> bool {
        self.x < bounds.x && self.y < bounds.y
    }

    /// One step in `direction`, accepted only when it stays on the board:
    /// `None` means the step would leave it.
    pub fn step_within(self, direction: Direction, bounds: Coordinate) -> (stepped: Option<Coordinate>)
        requires
            self.in_bounds(bounds),
        ensures
            match stepped {
                Some(c) => self.can_step_in(direction) && c == self.spec_step_in(direction)
                    && c.in_bounds(bounds),
                None => !(self.can_step_in(direction)
                    && self.spec_step_in(direction).in_bounds(bounds)),
            },
    {
        match direction {
            Direction::Up => {
                if self.y > 0 {
                    Some(Coordinate { x: self.x, y: self.y - 1 })
                } else {
                    None
                }
            },
            Direction::Down => {
                if self.y + 1 < bounds.y {
                    Some(Coordinate { x: self.x, y: self.y + 1 })
                } else {
                    None
                }
            },
            Direction::Left => {
                if self.x > 0 {
                    Some(Coordinate { x: self.x - 1, y: self.y })
                } else {
                    None
                }
            },
            Direction::Right => {
                if self.x + 1 < bounds.x {
                    Some(Coordinate { x: self.x + 1, y: self.y })
                } else {
                    None
                }
            },
        }
    }
}

/// Whether two cells are exactly one grid step apart: equal on one axis and
/// off by one on the other.
pub open spec fn adjacent(a: Coordinate, b: Coordinate) -> bool {
    ||| a.x == b.x && (a.y + 1 == b.y || b.y + 1 == a.y)
    ||| a.y == b.y && (a.x + 1 == b.x || b.x + 1 == a.x)
}

/// A step lands one grid step away from where it started, as long as it does
/// not cross the coordinate range.
pub proof fn lemma_step_adjacent(c: Coordinate, d: Direction)
    requires
        c.can_step_in(d),
    ensures
        adjacent(c, c.spec_step_in(d)),
{
}

/// Geometry round trip: one step in a direction and one step back in its
/// opposite return to the starting coordinate, as long as the first step does
/// not cross the coordinate range.
pub proof fn lemma_step_round_trip(c: Coordinate, d: Direction)
    requires
        c.can_step_in(d),
    ensures
        c.spec_step_in(d).spec_step_in(d.opposite()) == c,
{
}

} // verus!

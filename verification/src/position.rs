//! Grid coordinates and unit steps.

use vstd::prelude::*;

verus! {

/// A coordinate pair. `x` runs along the arena's height and `y` along its
/// width; a position names a cell only while it lies inside the arena.
#[derive(Clone, Copy, Debug, PartialEq, Eq, Hash, Default, Structural)]
pub struct Position {
    pub x: i32,
    pub y: i32,
}

/// What an agent may ask for in one tick: stay put, or move by one cell along
/// one axis.
#[derive(Clone, Copy, Debug, PartialEq, Eq, Hash, Structural)]
pub enum Direction {
    Stay,
    PlusX,
    MinusX,
    PlusY,
    MinusY,
}

impl Direction {
    /// Change of the `x` coordinate that this direction stands for.
    pub open spec fn dx(self) -> int {
        match self {
            Direction::PlusX => 1,
            Direction::MinusX => -1,
            _ => 0,
        }
    }

    /// Change of the `y` coordinate that this direction stands for.
    pub open spec fn dy(self) -> int {
        match self {
            Direction::PlusY => 1,
            Direction::MinusY => -1,
            _ => 0,
        }
    }

    /// The direction that a random byte selects. Only the four moving
    /// directions are drawn: a roll never yields `Stay`, so every agent asks
    /// to move on every tick.
    pub open spec fn of_roll(roll: u8) -> Direction {
        if roll % 4 == 0 {
            Direction::PlusX
        } else if roll % 4 == 1 {
            Direction::MinusX
        } else if roll % 4 == 2 {
            Direction::PlusY
        } else {
            Direction::MinusY
        }
    }

    /// Turns a random byte into a direction by its remainder modulo four.
    pub fn from_roll(roll: u8) -> (d: Direction)
        ensures
            d == Direction::of_roll(roll),
            d != Direction::Stay,
    {
        let v: u8 = roll % 4;
        if v == 0 {
            Direction::PlusX
        } else if v == 1 {
            Direction::MinusX
        } else if v == 2 {
            Direction::PlusY
        } else {
            Direction::MinusY
        }
    }
}

impl Position {
    /// The position with the given coordinates.
    pub fn new(x: i32, y: i32) -> (p: Position)
        ensures
            p.x == x,
            p.y == y,
    {
        Position { x, y }
    }

    /// Whether one step in direction `d` stays within the range of `i32`.
    pub open spec fn can_step(self, d: Direction) -> bool {
        &&& i32::MIN <= self.x + d.dx() <= i32::MAX
        &&& i32::MIN <= self.y + d.dy() <= i32::MAX
    }

    /// The position one step away in direction `d`.
    pub open spec fn stepped(self, d: Direction) -> Position {
        Position { x: (self.x + d.dx()) as i32, y: (self.y + d.dy()) as i32 }
    }

    /// Moves one step in direction `d`. No bounds of any arena are applied
    /// here: the arbiter decides whether the target is acceptable.
    pub fn step(self, d: Direction) -> (p: Position)
        requires
            self.can_step(d),
        ensures
            p == self.stepped(d),
            p.x == self.x + d.dx(),
            p.y == self.y + d.dy(),
    {
        match d {
            Direction::Stay => self,
            Direction::PlusX => Position { x: self.x + 1, y: self.y },
            Direction::MinusX => Position { x: self.x - 1, y: self.y },
            Direction::PlusY => Position { x: self.x, y: self.y + 1 },
            Direction::MinusY => Position { x: self.x, y: self.y - 1 },
        }
    }
}

} // verus!

use vstd::prelude::*;

use crate::point::{IntPoint, Point};

verus! {

/// One of the four facings a character sprite can show.
#[derive(Debug, Clone, Copy, PartialEq, Eq, Structural)]
pub enum CardinalDirection {
    Up,
    Left,
    Down,
    Right,
}

impl CardinalDirection {
    /// Position of the facing in the order Up, Left, Down, Right.
    pub open spec fn ordinal(self) -> int {
        match self {
            CardinalDirection::Up => 0,
            CardinalDirection::Left => 1,
            CardinalDirection::Down => 2,
            CardinalDirection::Right => 3,
        }
    }

    /// The ring direction with the same heading.
    pub fn to_direction(&self) -> (r: Direction)
        ensures
            r.ordinal() == 2 * self.ordinal(),
    {
        match self {
            CardinalDirection::Up => Direction::Up,
            CardinalDirection::Left => Direction::Left,
            CardinalDirection::Down => Direction::Down,
            CardinalDirection::Right => Direction::Right,
        }
    }
}

/// The eight compass directions, in ring order starting at Up and turning left.
#[derive(Debug, Clone, Copy, PartialEq, Eq, Structural)]
pub enum Direction {
    Up,
    UpLeft,
    Left,
    LeftDown,
    Down,
    DownRight,
    Right,
    RightUp,
}

/// Circular adjacency on the ring of eight: equal or neighbouring positions.
pub open spec fn ring_close(a: int, b: int) -> bool {
    let hi = if a < b { b } else { a };
    let lo = if a < b { a } else { b };
    hi - lo <= 1 || (hi == 7 && lo == 0)
}

impl Direction {
    /// Position of the direction on the ring.
    pub open spec fn ordinal(self) -> int {
        match self {
            Direction::Up => 0,
            Direction::UpLeft => 1,
            Direction::Left => 2,
            Direction::LeftDown => 3,
            Direction::Down => 4,
            Direction::DownRight => 5,
            Direction::Right => 6,
            Direction::RightUp => 7,
        }
    }

    /// Unit step of the direction, with x growing to the right and y growing upwards.
    pub open spec fn unit(self) -> (int, int) {
        match self {
            Direction::Up => (0, 1),
            Direction::UpLeft => (-1, 1),
            Direction::Left => (-1, 0),
            Direction::LeftDown => (-1, -1),
            Direction::Down => (0, -1),
            Direction::DownRight => (1, -1),
            Direction::Right => (1, 0),
            Direction::RightUp => (1, 1),
        }
    }

    fn ordinal_value(&self) -> (r: i32)
        ensures
            r as int == self.ordinal(),
    {
        match self {
            Direction::Up => 0,
            Direction::UpLeft => 1,
            Direction::Left => 2,
            Direction::LeftDown => 3,
            Direction::Down => 4,
            Direction::DownRight => 5,
            Direction::Right => 6,
            Direction::RightUp => 7,
        }
    }

    /// Whether the two directions are equal or neighbours on the ring.
    pub fn is_close_to(&self, other: &Direction) -> (r: bool)
        ensures
            r == ring_close(self.ordinal(), other.ordinal()),
    {
        let mut self_value = self.ordinal_value();
        let mut other_value = other.ordinal_value();
        if self_value < other_value {
            let tmp = self_value;
            self_value = other_value;
            other_value = tmp;
        }
        self_value - other_value <= 1 || (self_value == 7 && other_value == 0)
    }

    /// The facing that shows a direction: the one at half its ring position.
    pub open spec fn spec_to_cardinal(self) -> CardinalDirection {
        let half = self.ordinal() / 2;
        if half == 0 {
            CardinalDirection::Up
        } else if half == 1 {
            CardinalDirection::Left
        } else if half == 2 {
            CardinalDirection::Down
        } else {
            CardinalDirection::Right
        }
    }

    /// The facing that shows this direction: diagonals take the facing that
    /// precedes them on the ring.
    pub fn to_cardinal(&self) -> (r: CardinalDirection)
        ensures
            r.ordinal() == self.ordinal() / 2,
            r == self.spec_to_cardinal(),
    {
        match self {
            Direction::Up => CardinalDirection::Up,
            Direction::UpLeft => CardinalDirection::Up,
            Direction::Left => CardinalDirection::Left,
            Direction::LeftDown => CardinalDirection::Left,
            Direction::Down => CardinalDirection::Down,
            Direction::DownRight => CardinalDirection::Down,
            Direction::Right => CardinalDirection::Right,
            Direction::RightUp => CardinalDirection::Right,
        }
    }

    /// The integer unit step of the direction.
    pub fn to_unit_integer_point(&self) -> (r: IntPoint)
        ensures
            (r.x as int, r.y as int) == self.unit(),
    {
        match self {
            Direction::Up => Point::new(0, 1),
            Direction::UpLeft => Point::new(-1, 1),
            Direction::Left => Point::new(-1, 0),
            Direction::LeftDown => Point::new(-1, -1),
            Direction::Down => Point::new(0, -1),
            Direction::DownRight => Point::new(1, -1),
            Direction::Right => Point::new(1, 0),
            Direction::RightUp => Point::new(1, 1),
        }
    }
}

} // verus!

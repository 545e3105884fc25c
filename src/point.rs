use vstd::prelude::*;

use crate::direction::Direction;

verus! {

/// A pair of coordinates.
#[derive(Debug, Clone, Copy)]
pub struct Point<T: Copy> {
    pub x: T,
    pub y: T,
}

/// A point on the integer grid.
pub type IntPoint = Point<i32>;

impl<T: Copy> Point<T> {
    pub fn new(x: T, y: T) -> (r: Self)
        ensures
            r.x == x,
            r.y == y,
    {
        Point { x, y }
    }
}

/// The sign of an integer: -1, 0 or 1.
pub open spec fn sign(v: int) -> int {
    if v < 0 {
        -1
    } else if v == 0 {
        0
    } else {
        1
    }
}

fn signum_plus_one(value: i32) -> (r: usize)
    ensures
        r as int == sign(value as int) + 1,
{
    if value < 0 {
        0
    } else if value == 0 {
        1
    } else {
        2
    }
}

impl Point<i32> {
    /// The same point mirrored across the x axis.
    pub fn invert_y(&self) -> (r: Self)
        requires
            self.y != i32::MIN,
        ensures
            r.x == self.x,
            r.y == -self.y,
    {
        Point { x: self.x, y: -self.y }
    }

    /// The ring direction whose unit step has the signs of this vector, or
    /// `None` for the zero vector.
    pub fn direction(&self) -> (r: Option<Direction>)
        ensures
            r is None <==> (self.x == 0 && self.y == 0),
            r matches Some(d) ==> d.unit() == (sign(self.x as int), sign(self.y as int)),
    {
        let row = signum_plus_one(self.y);
        let column = signum_plus_one(self.x);
        if row == 0 {
            if column == 0 {
                Some(Direction::LeftDown)
            } else if column == 1 {
                Some(Direction::Down)
            } else {
                Some(Direction::DownRight)
            }
        } else if row == 1 {
            if column == 0 {
                Some(Direction::Left)
            } else if column == 1 {
                None
            } else {
                Some(Direction::Right)
            }
        } else {
            if column == 0 {
                Some(Direction::UpLeft)
            } else if column == 1 {
                Some(Direction::Up)
            } else {
                Some(Direction::RightUp)
            }
        }
    }
}

} // verus!

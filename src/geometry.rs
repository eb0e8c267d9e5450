//! Positions and closed axis-aligned rectangles on the integer plane.
use vstd::prelude::*;

verus! {

/// A point of the plane.
#[derive(Clone, Copy, Debug, PartialEq, Eq, Structural)]
pub struct Position {
    pub x: i32,
    pub y: i32,
}

impl Position {
    pub fn new(x: i32, y: i32) -> (r: Position)
        ensures
            r.x == x,
            r.y == y,
    {
        Position { x, y }
    }
}

/// A closed axis-aligned rectangle: every point `p` with
/// `left <= p.x <= right` and `bot <= p.y <= top`.
#[derive(Clone, Copy, Debug, PartialEq, Eq, Structural)]
pub struct Rectangle {
    pub left: i32,
    pub bot: i32,
    pub right: i32,
    pub top: i32,
}

impl Rectangle {
    /// Whether the closed rectangle holds the point.
    pub open spec fn holds(self, x: int, y: int) -> bool {
        self.left <= x <= self.right && self.bot <= y <= self.top
    }

    /// Whether the closed rectangle holds the position.
    pub open spec fn holds_pos(self, p: Position) -> bool {
        self.holds(p.x as int, p.y as int)
    }

    /// Whether the closed rectangles share a point, given as bounds.
    pub open spec fn meets(self, left: int, bot: int, right: int, top: int) -> bool {
        self.bot <= top && bot <= self.top && self.left <= right && left <= self.right
    }

    pub open spec fn overlaps(self, other: Rectangle) -> bool {
        self.meets(other.left as int, other.bot as int, other.right as int, other.top as int)
    }

    pub open spec fn includes(self, other: Rectangle) -> bool {
        self.left <= other.left && other.right <= self.right && self.bot <= other.bot
            && other.top <= self.top
    }

    pub fn new(left: i32, bot: i32, right: i32, top: i32) -> (r: Rectangle)
        ensures
            r == (Rectangle { left, bot, right, top }),
    {
        Rectangle { left, bot, right, top }
    }

    /// Whether the two closed rectangles share any point, on their boundary too.
    pub fn intersects(&self, other: &Rectangle) -> (r: bool)
        ensures
            r == self.overlaps(*other),
    {
        if self.bot > other.top {
            return false;
        }
        if self.top < other.bot {
            return false;
        }
        if self.right < other.left {
            return false;
        }
        if self.left > other.right {
            return false;
        }
        true
    }

    /// Whether this rectangle meets `other` grown by `amount` on every side.
    pub fn intersects_loosened(&self, other: &Rectangle, amount: i32) -> (r: bool)
        ensures
            r == self.meets(
                other.left - amount,
                other.bot - amount,
                other.right + amount,
                other.top + amount,
            ),
    {
        let a = amount as i64;
        let left = other.left as i64 - a;
        let bot = other.bot as i64 - a;
        let right = other.right as i64 + a;
        let top = other.top as i64 + a;
        self.bot as i64 <= top && bot <= self.top as i64 && self.left as i64 <= right && left
            <= self.right as i64
    }

    /// Whether the point lies in the closed rectangle.
    pub fn is_inside(&self, pos: Position) -> (r: bool)
        ensures
            r == self.holds_pos(pos),
    {
        pos.x >= self.left && pos.x <= self.right && pos.y >= self.bot && pos.y <= self.top
    }

    /// Whether `other` is a subset of this rectangle.
    pub fn contains(&self, other: Rectangle) -> (r: bool)
        ensures
            r == self.includes(other),
    {
        other.left >= self.left && other.right <= self.right && other.bot >= self.bot
            && other.top <= self.top
    }
}

} // verus!

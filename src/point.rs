use vstd::prelude::*;

verus! {

/// The largest coordinate of the playable square.
pub const PLAYABLE_SIZE_MAX: i16 = 40;

/// A cell of the grid.
#[derive(Clone, Copy, PartialEq, Eq, Structural, Debug)]
pub struct Point {
    pub x: i16,
    pub y: i16,
}

/// Where the snake heads; `Still` means that it does not move.
#[derive(Clone, Copy, PartialEq, Eq, Structural, Debug)]
pub enum Direction {
    Up,
    Down,
    Left,
    Right,
    Still,
}

pub open spec fn opposite(d: Direction) -> Direction {
    match d {
        Direction::Up => Direction::Down,
        Direction::Down => Direction::Up,
        Direction::Left => Direction::Right,
        Direction::Right => Direction::Left,
        Direction::Still => Direction::Still,
    }
}

/// Horizontal part of the unit vector of a direction.
pub open spec fn dx(d: Direction) -> int {
    match d {
        Direction::Left => -1,
        Direction::Right => 1,
        _ => 0,
    }
}

/// Vertical part of the unit vector of a direction (rows grow downwards).
pub open spec fn dy(d: Direction) -> int {
    match d {
        Direction::Up => -1,
        Direction::Down => 1,
        _ => 0,
    }
}

/// The point one step from `p` in direction `d`.
pub open spec fn stepped(p: Point, d: Direction) -> Point {
    Point { x: (p.x + dx(d)) as i16, y: (p.y + dy(d)) as i16 }
}

/// A step from `p` stays within `i16`.
pub open spec fn can_step(p: Point) -> bool {
    i16::MIN < p.x < i16::MAX && i16::MIN < p.y < i16::MAX
}

/// The playable square: columns 0 to 40, rows 1 to 40 (row 0 holds the status bar).
pub open spec fn in_bounds(p: Point) -> bool {
    0 <= p.x <= PLAYABLE_SIZE_MAX && 1 <= p.y <= PLAYABLE_SIZE_MAX
}

/// Every point that a frame may paint: the playable square and the status row.
pub open spec fn on_screen(p: Point) -> bool {
    0 <= p.x <= PLAYABLE_SIZE_MAX && 0 <= p.y <= PLAYABLE_SIZE_MAX
}

impl Direction {
    pub fn opposite(self) -> (r: Direction)
        ensures
            r == opposite(self),
    {
        match self {
            Direction::Up => Direction::Down,
            Direction::Down => Direction::Up,
            Direction::Left => Direction::Right,
            Direction::Right => Direction::Left,
            Direction::Still => Direction::Still,
        }
    }
}

impl Point {
    /// Component-wise difference of two points.
    pub fn sub(self, other: Point) -> (r: Point)
        requires
            i16::MIN <= self.x - other.x <= i16::MAX,
            i16::MIN <= self.y - other.y <= i16::MAX,
        ensures
            r.x == self.x - other.x,
            r.y == self.y - other.y,
    {
        Point { x: self.x - other.x, y: self.y - other.y }
    }

    /// The point one step away in direction `d`.
    pub fn step(self, d: Direction) -> (r: Point)
        requires
            can_step(self),
        ensures
            r == stepped(self, d),
            r.x == self.x + dx(d),
            r.y == self.y + dy(d),
    {
        match d {
            Direction::Up => Point { x: self.x, y: self.y - 1 },
            Direction::Down => Point { x: self.x, y: self.y + 1 },
            Direction::Left => Point { x: self.x - 1, y: self.y },
            Direction::Right => Point { x: self.x + 1, y: self.y },
            Direction::Still => self,
        }
    }
}

/// A step followed by a step in the opposite direction comes back to the start.
pub proof fn lemma_step_then_reverse(p: Point, d: Direction)
    requires
        can_step(p),
    ensures
        stepped(stepped(p, d), opposite(d)) == p,
{
}

} // verus!

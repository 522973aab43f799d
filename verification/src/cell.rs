//! Grid coordinates and the four movement directions.

use vstd::prelude::*;

verus! {

/// A grid coordinate: column `x`, row `y`, both counted from zero.
#[derive(Clone, Copy, Debug, PartialEq, Eq, Structural)]
pub struct Cell {
    pub x: i32,
    pub y: i32,
}

/// One of the four unit steps a snake can take.
#[derive(Clone, Copy, Debug, PartialEq, Eq, Structural)]
pub enum Direction {
    Up,
    Down,
    Left,
    Right,
}

impl Direction {
    /// Horizontal component of the unit step.
    pub open spec fn delta_x(self) -> int {
        match self {
            Direction::Left => -1,
            Direction::Right => 1,
            _ => 0,
        }
    }

    /// Vertical component of the unit step; rows grow downwards.
    pub open spec fn delta_y(self) -> int {
        match self {
            Direction::Up => -1,
            Direction::Down => 1,
            _ => 0,
        }
    }

    /// The direction pointing the other way.
    pub open spec fn negated(self) -> Direction {
        match self {
            Direction::Up => Direction::Down,
            Direction::Down => Direction::Up,
            Direction::Left => Direction::Right,
            Direction::Right => Direction::Left,
        }
    }

    /// Whether `new_dir` is the exact opposite of `current`.
    pub open spec fn reverses(new_dir: Direction, current: Direction) -> bool {
        new_dir == current.negated()
    }

    /// The heading after a steering request: a reversal is ignored.
    pub open spec fn steered(current: Direction, requested: Direction) -> Direction {
        if Direction::reverses(requested, current) {
            current
        } else {
            requested
        }
    }

    /// Horizontal component of the unit step.
    pub fn dx(self) -> (r: i32)
        ensures
            r == self.delta_x(),
    {
        match self {
            Direction::Left => -1,
            Direction::Right => 1,
            _ => 0,
        }
    }

    /// Vertical component of the unit step.
    pub fn dy(self) -> (r: i32)
        ensures
            r == self.delta_y(),
    {
        match self {
            Direction::Up => -1,
            Direction::Down => 1,
            _ => 0,
        }
    }

    /// The direction pointing the other way: both components negated.
    pub fn opposite(self) -> (r: Direction)
        ensures
            r == self.negated(),
            r.delta_x() == -self.delta_x(),
            r.delta_y() == -self.delta_y(),
    {
        match self {
            Direction::Up => Direction::Down,
            Direction::Down => Direction::Up,
            Direction::Left => Direction::Right,
            Direction::Right => Direction::Left,
        }
    }

    /// True exactly when `new_dir` is `current` turned by 180 degrees, that
    /// is when both components of its step are those of `current` negated.
    pub fn is_reverse(new_dir: Direction, current: Direction) -> (r: bool)
        ensures
            r == Direction::reverses(new_dir, current),
            r == (new_dir.delta_x() == -current.delta_x() && new_dir.delta_y()
                == -current.delta_y()),
    {
        new_dir.dx() == -current.dx() && new_dir.dy() == -current.dy()
    }

    /// Applies a steering request to the current heading. A request to
    /// reverse leaves the heading as it was; any other request is taken.
    pub fn steer(current: Direction, requested: Direction) -> (r: Direction)
        ensures
            r == Direction::steered(current, requested),
            !Direction::reverses(r, current),
    {
        if Direction::is_reverse(requested, current) {
            current
        } else {
            requested
        }
    }
}

impl Cell {
    /// Largest coordinate that any board can hold.
    pub open spec fn limit() -> int {
        65535
    }

    /// Both coordinates lie in the range that a board can address.
    pub open spec fn on_board(self) -> bool {
        0 <= self.x <= Cell::limit() && 0 <= self.y <= Cell::limit()
    }

    /// The cell one step away in direction `d`.
    pub open spec fn shifted(self, d: Direction) -> Cell
        recommends
            self.on_board(),
    {
        Cell { x: (self.x + d.delta_x()) as i32, y: (self.y + d.delta_y()) as i32 }
    }

    /// The cell in column `x` and row `y`.
    pub fn new(x: i32, y: i32) -> (c: Cell)
        ensures
            c.x == x,
            c.y == y,
    {
        Cell { x, y }
    }

    /// Whether the cell can be part of a snake on some board.
    pub fn is_on_board(self) -> (r: bool)
        ensures
            r == self.on_board(),
    {
        0 <= self.x && self.x <= 65535 && 0 <= self.y && self.y <= 65535
    }

    /// The neighbouring cell in direction `d`. The step must not leave the
    /// range of the coordinates' type; from a cell on a board it never does.
    pub fn step(self, d: Direction) -> (c: Cell)
        requires
            i32::MIN <= self.x + d.delta_x() <= i32::MAX,
            i32::MIN <= self.y + d.delta_y() <= i32::MAX,
        ensures
            c == self.shifted(d),
            c.x == self.x + d.delta_x(),
            c.y == self.y + d.delta_y(),
    {
        Cell { x: self.x + d.dx(), y: self.y + d.dy() }
    }
}

/// Appending one element adds exactly that element to what a sequence
/// contains, and keeps it free of repetitions if the element is new.
pub proof fn lemma_push_contains(s: Seq<Cell>, a: Cell)
    ensures
        forall|c: Cell| #[trigger] s.push(a).contains(c) <==> (s.contains(c) || c == a),
        (s.no_duplicates() && !s.contains(a)) ==> s.push(a).no_duplicates(),
{
    let t = s.push(a);
    assert forall|c: Cell| #[trigger] t.contains(c) <==> (s.contains(c) || c == a) by {
        if t.contains(c) {
            let i = choose|i: int| 0 <= i < t.len() && t[i] == c;
            if i < s.len() {
                assert(s[i] == c);
            }
        }
        if s.contains(c) {
            let i = choose|i: int| 0 <= i < s.len() && s[i] == c;
            assert(t[i] == c);
        }
        if c == a {
            assert(t[s.len() as int] == c);
        }
    }
    if s.no_duplicates() && !s.contains(a) {
        assert forall|i: int, j: int| 0 <= i < t.len() && 0 <= j < t.len() && i != j implies t[i]
            != t[j] by {
            if i < s.len() && j < s.len() {
            } else if i < s.len() {
                assert(s.contains(s[i]));
            } else {
                assert(s.contains(s[j]));
            }
        }
    }
}

} // verus!

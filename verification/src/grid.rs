//! The playfield: its bounds and the wall cells along its perimeter.

use vstd::prelude::*;
use crate::cell::Cell;
use crate::cell::lemma_push_contains;

verus! {

/// Why a grid could not be built.
#[derive(Clone, Copy, Debug, PartialEq, Eq, Structural)]
pub enum GridError {
    /// Width or height is below the smallest playable size.
    InvalidDimensions,
}

/// The smallest width and height that leave a playable interior.
pub const MIN_SIDE: u16 = 5;

/// Whether `c` lies inside a field of `cols` columns and `rows` rows.
pub open spec fn within(cols: int, rows: int, c: Cell) -> bool {
    0 <= c.x < cols && 0 <= c.y < rows
}

/// Whether `c` lies on the perimeter of such a field.
pub open spec fn on_perimeter(cols: int, rows: int, c: Cell) -> bool {
    within(cols, rows, c) && (c.x == 0 || c.x == cols - 1 || c.y == 0 || c.y == rows - 1)
}

/// Whether `c` lies inside such a field and off its perimeter.
pub open spec fn interior(cols: int, rows: int, c: Cell) -> bool {
    1 <= c.x <= cols - 2 && 1 <= c.y <= rows - 2
}

/// Whether `a` comes before `b` when cells are read row by row, each row
/// from left to right.
pub open spec fn reads_before(a: Cell, b: Cell) -> bool {
    a.y < b.y || (a.y == b.y && a.x < b.x)
}

/// Whether the cells stand in reading order, which leaves no repetition.
pub open spec fn in_reading_order(cells: Seq<Cell>) -> bool {
    forall|i: int, j: int| 0 <= i < j < cells.len() ==> reads_before(cells[i], cells[j])
}

/// Appending a cell that every cell already held reads before keeps the
/// reading order.
pub proof fn lemma_push_in_order(s: Seq<Cell>, c: Cell)
    requires
        in_reading_order(s),
        forall|e: Cell| s.contains(e) ==> reads_before(e, c),
    ensures
        in_reading_order(s.push(c)),
        !s.contains(c),
{
    let t = s.push(c);
    assert forall|i: int, j: int| 0 <= i < j < t.len() implies reads_before(t[i], t[j]) by {
        if j == s.len() {
            assert(s.contains(s[i]));
        }
    }
}

/// A bordered playfield. The wall cells are computed when the grid is
/// built and never change.
pub struct Grid {
    width: u16,
    height: u16,
    walls: Vec<Cell>,
}

impl Grid {
    /// Number of columns.
    pub closed spec fn cols(&self) -> int {
        self.width as int
    }

    /// Number of rows.
    pub closed spec fn rows(&self) -> int {
        self.height as int
    }

    /// The cached wall cells, in the order in which they are drawn.
    pub closed spec fn wall_cells(&self) -> Seq<Cell> {
        self.walls@
    }

    /// `c` lies within the bounds.
    pub open spec fn holds(&self, c: Cell) -> bool {
        within(self.cols(), self.rows(), c)
    }

    /// `c` is a wall cell.
    pub open spec fn wall_at(&self, c: Cell) -> bool {
        on_perimeter(self.cols(), self.rows(), c)
    }

    /// `c` is a playable cell.
    pub open spec fn inside(&self, c: Cell) -> bool {
        interior(self.cols(), self.rows(), c)
    }

    /// The grid is at least 5 by 5 and its cached wall cells are exactly
    /// the cells of its perimeter, each held once, in reading order.
    pub open spec fn wf(&self) -> bool {
        &&& 5 <= self.cols() <= 65535
        &&& 5 <= self.rows() <= 65535
        &&& self.wall_cells().no_duplicates()
        &&& in_reading_order(self.wall_cells())
        &&& forall|c: Cell| #[trigger] self.wall_cells().contains(c) <==> self.wall_at(c)
    }

    /// Builds a grid of `width` columns and `height` rows, or fails with
    /// `InvalidDimensions` when either is below 5.
    pub fn new(width: u16, height: u16) -> (r: Result<Grid, GridError>)
        ensures
            r is Ok <==> (width >= 5 && height >= 5),
            r matches Ok(g) ==> g.wf() && g.cols() == width && g.rows() == height,
            r matches Err(e) ==> e == GridError::InvalidDimensions,
    {
        if width < MIN_SIDE || height < MIN_SIDE {
            return Err(GridError::InvalidDimensions);
        }
        let ghost cols = width as int;
        let ghost rows = height as int;
        let mut walls: Vec<Cell> = Vec::new();
        let mut y: u16 = 0;
        while y < height
            invariant
                y <= height,
                5 <= width,
                5 <= height,
                cols == width,
                rows == height,
                walls@.no_duplicates(),
                in_reading_order(walls@),
                forall|c: Cell| #[trigger]
                    walls@.contains(c) <==> (on_perimeter(cols, rows, c) && c.y < y),
            decreases height - y,
        {
            if y == 0 || y == height - 1 {
                let mut x: u16 = 0;
                while x < width
                    invariant
                        x <= width,
                        y < height,
                        y == 0 || y == height - 1,
                        cols == width,
                        rows == height,
                        walls@.no_duplicates(),
                        in_reading_order(walls@),
                        forall|c: Cell| #[trigger]
                            walls@.contains(c) <==> (on_perimeter(cols, rows, c) && (c.y < y || (c.y
                                == y && c.x < x))),
                    decreases width - x,
                {
                    let c = Cell { x: x as i32, y: y as i32 };
                    proof {
                        lemma_push_contains(walls@, c);
                        lemma_push_in_order(walls@, c);
                    }
                    walls.push(c);
                    x = x + 1;
                }
            } else {
                let left = Cell { x: 0, y: y as i32 };
                let right = Cell { x: (width - 1) as i32, y: y as i32 };
                proof {
                    lemma_push_contains(walls@, left);
                    lemma_push_in_order(walls@, left);
                    lemma_push_contains(walls@.push(left), right);
                    lemma_push_in_order(walls@.push(left), right);
                }
                walls.push(left);
                walls.push(right);
            }
            y = y + 1;
        }
        Ok(Grid { width, height, walls })
    }

    /// Number of columns.
    pub fn width(&self) -> (w: u16)
        ensures
            w == self.cols(),
    {
        self.width
    }

    /// Number of rows.
    pub fn height(&self) -> (h: u16)
        ensures
            h == self.rows(),
    {
        self.height
    }

    /// Whether `c` lies within the grid's bounds.
    pub fn contains(&self, c: Cell) -> (r: bool)
        ensures
            r == self.holds(c),
    {
        0 <= c.x && c.x < self.width as i32 && 0 <= c.y && c.y < self.height as i32
    }

    /// Whether `c` is one of the grid's wall cells.
    pub fn is_wall(&self, c: Cell) -> (r: bool)
        ensures
            r == self.wall_at(c),
    {
        self.contains(c) && (c.x == 0 || c.x == self.width as i32 - 1 || c.y == 0 || c.y
            == self.height as i32 - 1)
    }

    /// Whether `c` is a playable cell: within bounds and not a wall.
    pub fn is_interior(&self, c: Cell) -> (r: bool)
        ensures
            r == self.inside(c),
            r == (self.holds(c) && !self.wall_at(c)),
    {
        self.contains(c) && !self.is_wall(c)
    }

    /// The wall cells: every cell of the perimeter, once, row by row.
    pub fn perimeter(&self) -> (w: &Vec<Cell>)
        ensures
            w@ == self.wall_cells(),
    {
        &self.walls
    }
}

} // verus!

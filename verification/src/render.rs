//! Drawing instructions for a terminal backend: which cell to paint with
//! which kind of glyph, and which cell to clear.

use vstd::prelude::*;
use crate::cell::Cell;
use crate::grid::Grid;
use crate::snake::Snake;

verus! {

/// The kinds of glyph that a backend knows how to style.
#[derive(Clone, Copy, Debug, PartialEq, Eq, Structural)]
pub enum Glyph {
    Wall,
    Head,
    BodyEven,
    BodyOdd,
    Tail,
    Food,
}

/// One instruction to the backend.
#[derive(Clone, Copy, Debug, PartialEq, Eq, Structural)]
pub enum DrawOp {
    /// Paint the cell with a glyph of the given kind.
    Draw(Cell, Glyph),
    /// Clear the cell.
    Erase(Cell),
}

/// The glyph of the segment at position `index` of a body of `len` cells:
/// the head at 0, the tail at `len - 1`, and between them the two body
/// glyphs in turn, by the parity of the position.
pub open spec fn glyph_at(index: int, len: int) -> Glyph {
    if index == 0 {
        Glyph::Head
    } else if index == len - 1 {
        Glyph::Tail
    } else if index % 2 == 0 {
        Glyph::BodyEven
    } else {
        Glyph::BodyOdd
    }
}

/// The body glyph that continues the alternation at the tail of a body of
/// `len` cells: the odd one for an even length, the even one for an odd
/// length.
pub open spec fn tail_shade(len: int) -> Glyph {
    if len % 2 == 0 {
        Glyph::BodyOdd
    } else {
        Glyph::BodyEven
    }
}

/// The instructions that paint every wall cell once.
pub open spec fn border_seq(walls: Seq<Cell>) -> Seq<DrawOp> {
    Seq::new(walls.len(), |i: int| DrawOp::Draw(walls[i], Glyph::Wall))
}

/// The instructions that paint a whole body, head first.
pub open spec fn body_seq(body: Seq<Cell>) -> Seq<DrawOp> {
    Seq::new(body.len(), |i: int| DrawOp::Draw(body[i], glyph_at(i, body.len() as int)))
}

/// The instructions for one committed move: clear the wake if there is
/// one, then paint the new tail and the new head.
pub open spec fn move_seq(body: Seq<Cell>, wake: Option<Cell>) -> Seq<DrawOp> {
    let paint = seq![DrawOp::Draw(body.last(), Glyph::Tail), DrawOp::Draw(body[0], Glyph::Head)];
    match wake {
        Some(w) => seq![DrawOp::Erase(w)] + paint,
        None => paint,
    }
}

/// The instructions that paint the food, if there is any.
pub open spec fn food_seq(food: Option<Cell>) -> Seq<DrawOp> {
    match food {
        Some(c) => seq![DrawOp::Draw(c, Glyph::Food)],
        None => Seq::empty(),
    }
}

/// The glyph of the segment at position `index` of a body of `len` cells.
pub fn segment_glyph(index: usize, len: usize) -> (g: Glyph)
    ensures
        g == glyph_at(index as int, len as int),
{
    if index == 0 {
        Glyph::Head
    } else if len > 0 && index == len - 1 {
        Glyph::Tail
    } else if index % 2 == 0 {
        Glyph::BodyEven
    } else {
        Glyph::BodyOdd
    }
}

/// The body glyph whose styling the tail of a body of `len` cells takes.
pub fn tail_glyph(len: usize) -> (g: Glyph)
    ensures
        g == tail_shade(len as int),
{
    if len % 2 == 0 {
        Glyph::BodyOdd
    } else {
        Glyph::BodyEven
    }
}

/// Paints the food where it was placed; nothing without food.
pub fn food_ops(food: Option<Cell>) -> (ops: Vec<DrawOp>)
    ensures
        ops@ == food_seq(food),
{
    let mut ops: Vec<DrawOp> = Vec::new();
    match food {
        Some(c) => {
            ops.push(DrawOp::Draw(c, Glyph::Food));
        },
        None => {},
    }
    assert(ops@ =~= food_seq(food));
    ops
}

/// The full pass that paints the border, made once when a session starts.
pub fn border_ops(grid: &Grid) -> (ops: Vec<DrawOp>)
    ensures
        ops@ == border_seq(grid.wall_cells()),
{
    let walls = grid.perimeter();
    let mut ops: Vec<DrawOp> = Vec::new();
    let mut i: usize = 0;
    while i < walls.len()
        invariant
            i <= walls@.len(),
            ops@.len() == i,
            forall|k: int| 0 <= k < i ==> ops@[k] == DrawOp::Draw(walls@[k], Glyph::Wall),
        decreases walls@.len() - i,
    {
        ops.push(DrawOp::Draw(walls[i], Glyph::Wall));
        i = i + 1;
    }
    assert(ops@ =~= border_seq(walls@));
    ops
}

/// The full pass that paints the whole snake, made once when a session
/// starts.
pub fn snake_ops(snake: &Snake) -> (ops: Vec<DrawOp>)
    ensures
        ops@ == body_seq(snake@),
{
    let n = snake.len();
    let mut ops: Vec<DrawOp> = Vec::new();
    let mut i: usize = 0;
    while i < n
        invariant
            i <= n,
            n == snake@.len(),
            ops@.len() == i,
            forall|k: int|
                0 <= k < i ==> ops@[k] == DrawOp::Draw(snake@[k], glyph_at(k, n as int)),
        decreases n - i,
    {
        ops.push(DrawOp::Draw(snake.cell(i), segment_glyph(i, n)));
        i = i + 1;
    }
    assert(ops@ =~= body_seq(snake@));
    ops
}

/// The instructions for one committed move of `snake`, which already
/// stands where the move took it; `wake` is the cell that the tail left,
/// if it left one.
pub fn move_ops(snake: &Snake, wake: Option<Cell>) -> (ops: Vec<DrawOp>)
    requires
        snake.wf(),
    ensures
        ops@ == move_seq(snake@, wake),
        ops@.len() == (if wake is Some { 3int } else { 2int }),
{
    let mut ops: Vec<DrawOp> = Vec::new();
    match wake {
        Some(w) => {
            ops.push(DrawOp::Erase(w));
        },
        None => {},
    }
    ops.push(DrawOp::Draw(snake.tail(), Glyph::Tail));
    ops.push(DrawOp::Draw(snake.head(), Glyph::Head));
    assert(ops@ =~= move_seq(snake@, wake));
    ops
}

} // verus!

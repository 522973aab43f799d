//! Food placement: a random candidate cell, and the rule that accepts or
//! rejects it.

use rand::rngs::ThreadRng;
use rand::Rng;
use vstd::prelude::*;
use crate::cell::Cell;
use crate::grid::Grid;
use crate::snake::Snake;

verus! {

/// The thread-local random number generator of the `rand` crate. Nothing is
/// known of its state.
#[verifier::external_type_specification]
#[verifier::external_body]
pub struct ExThreadRng(ThreadRng);

/// Calls `rand::Rng::random_range` on the half-open range `0..bound`. The
/// range is not empty, so the call does not panic, and it returns a value of
/// that range; which one is not known.
#[verifier::external_body]
fn random_below(rng: &mut ThreadRng, bound: i32) -> (r: i32)
    requires
        bound > 0,
    ensures
        0 <= r < bound,
{
    rng.random_range(0..bound)
}

/// Whether food may lie on `c`: a playable cell that the body does not hold.
pub open spec fn free_cell(cols: int, rows: int, body: Seq<Cell>, c: Cell) -> bool {
    crate::grid::interior(cols, rows, c) && !body.contains(c)
}

/// Draws a candidate cell anywhere within the grid's bounds, walls
/// included. Whatever is drawn lies within the bounds.
pub fn candidate(grid: &Grid, rng: &mut ThreadRng) -> (c: Cell)
    requires
        grid.wf(),
    ensures
        grid.holds(c),
{
    let x = random_below(rng, grid.width() as i32);
    let y = random_below(rng, grid.height() as i32);
    Cell { x, y }
}

/// The rejection rule: a candidate is kept exactly when it is neither a
/// wall cell, nor outside the grid, nor held by the snake.
pub fn accept(grid: &Grid, snake: &Snake, c: Cell) -> (r: Option<Cell>)
    ensures
        r == (if free_cell(grid.cols(), grid.rows(), snake@, c) {
            Some(c)
        } else {
            None
        }),
{
    if grid.is_interior(c) && !snake.occupies(c) {
        Some(c)
    } else {
        None
    }
}

/// One attempt to place food: draws a candidate and applies the rejection
/// rule. A cell that comes back is never a wall cell and never held by the
/// snake; `None` means that this attempt placed nothing.
pub fn spawn(grid: &Grid, snake: &Snake, rng: &mut ThreadRng) -> (r: Option<Cell>)
    requires
        grid.wf(),
    ensures
        r matches Some(c) ==> free_cell(grid.cols(), grid.rows(), snake@, c) && !grid.wall_at(c)
            && !snake@.contains(c),
{
    let c = candidate(grid, rng);
    accept(grid, snake, c)
}

} // verus!

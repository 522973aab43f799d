//! Laws of the game, proved of every state and every input.

use vstd::prelude::*;
use vstd::seq_lib::to_multiset_insert;
use vstd::seq_lib::to_multiset_remove;
use crate::cell::Cell;
use crate::cell::Direction;
use crate::food::free_cell;
use crate::game::lemma_step_wf;
use crate::game::GameView;
use crate::game::Input;
use crate::game::TickEvent;
use crate::grid::on_perimeter;
use crate::snake::advance;
use crate::snake::hits_body;
use crate::snake::lemma_advance_contains;

verus! {

/// A move lengthens the body by one when food was eaten and leaves its
/// length unchanged otherwise.
pub proof fn law_move_length(body: Seq<Cell>, head: Cell, ate_food: bool)
    requires
        body.len() >= 1,
    ensures
        advance(body, head, ate_food).len() == body.len() + (if ate_food {
            1int
        } else {
            0int
        }),
{
}

/// After every tick the body is as long as before, plus one exactly when
/// the tick ate food.
pub proof fn law_tick_length(v: GameView, input: Input)
    requires
        v.wf(),
    ensures
        v.step(input).body.len() == v.body.len() + (if v.event(input) == TickEvent::Ate {
            1int
        } else {
            0int
        }),
{
}

/// A move without growth changes the occupied cells, counted with
/// multiplicity, by exactly this: the old tail's cell goes and the new
/// head's cell comes.
pub proof fn law_move_cells(body: Seq<Cell>, head: Cell)
    requires
        body.len() >= 1,
    ensures
        advance(body, head, false).to_multiset() == body.to_multiset().remove(body.last()).insert(
            head,
        ),
{
    let rest = body.drop_last();
    assert(rest =~= body.remove(body.len() - 1));
    to_multiset_remove(body, body.len() - 1);
    assert(advance(body, head, false) =~= rest.insert(0, head));
    to_multiset_insert(rest, 0, head);
}

/// On a tick that moves without eating, the head advances one step along
/// the heading of that tick, every other segment takes the place of the one
/// before it, and the occupied cells change by the wake going and the new
/// head coming.
pub proof fn law_tick_shift(v: GameView, input: Input)
    requires
        v.wf(),
        v.event(input) is Moved,
    ensures
        v.event(input) == TickEvent::Moved(v.body.last()),
        v.step(input).body[0].x == v.body[0].x + v.next_heading(input).delta_x(),
        v.step(input).body[0].y == v.body[0].y + v.next_heading(input).delta_y(),
        forall|i: int| 1 <= i < v.body.len() ==> v.step(input).body[i] == v.body[i - 1],
        v.step(input).body.to_multiset() == v.body.to_multiset().remove(v.body.last()).insert(
            v.next_head(input),
        ),
{
    law_move_cells(v.body, v.next_head(input));
    assert(crate::grid::interior(v.cols, v.rows, v.body[0]));
}

/// On a tick that moves without eating, the wake is not held by the snake
/// afterwards, unless the head has just entered it.
pub proof fn law_wake_vacated(v: GameView, input: Input)
    requires
        v.wf(),
        v.event(input) is Moved,
        v.next_head(input) != v.body.last(),
    ensures
        !v.step(input).body.contains(v.body.last()),
{
    let w = v.body.last();
    let p = v.next_head(input);
    lemma_advance_contains(v.body, p, false, w);
    if v.body.drop_last().contains(w) {
        let i = choose|i: int| 0 <= i < v.body.drop_last().len() && v.body.drop_last()[i] == w;
        assert(v.body[i] == v.body[v.body.len() - 1]);
    }
    let next = v.step(input).body;
    if next.contains(w) {
        let j = choose|j: int| 0 <= j < next.len() && next[j] == w;
        if j >= 1 {
            assert(next[j] == v.body.drop_last()[j - 1]);
            assert(v.body.drop_last().contains(w));
        }
    }
}

/// A running game is lost on the tick in which the head would enter a cell
/// held by any segment but the tail.
pub proof fn law_body_hit_loses(v: GameView, input: Input, i: int)
    requires
        v.wf(),
        v.running,
        input != Input::Quit,
        0 <= i < v.body.len() - 1,
        v.next_head(input) == v.body[i],
    ensures
        v.event(input) == TickEvent::HitSelf,
        !v.step(input).running,
        v.step(input).body == v.body,
{
    assert(v.body.drop_last()[i] == v.next_head(input));
    assert(crate::grid::interior(v.cols, v.rows, v.body[i]));
}

/// Entering the cell that the tail is about to leave is no collision: the
/// snake moves, and the game goes on.
pub proof fn law_tail_cell_is_free(v: GameView, input: Input)
    requires
        v.wf(),
        v.running,
        input != Input::Quit,
        v.next_head(input) == v.body.last(),
    ensures
        v.event(input) == TickEvent::Moved(v.body.last()),
        v.step(input).running,
{
    let p = v.next_head(input);
    let n = v.body.len() as int;
    assert(crate::grid::interior(v.cols, v.rows, v.body[n - 1]));
    if hits_body(v.body, p) {
        let i = choose|i: int| 0 <= i < v.body.drop_last().len() && v.body.drop_last()[i] == p;
        assert(v.body[i] == v.body[n - 1]);
    }
    if v.food == Some(p) {
        assert(v.body.contains(v.body[n - 1]));
    }
}

/// A request to reverse is ignored: the tick goes as if nothing had been
/// asked. Any other turn becomes the heading of that tick.
pub proof fn law_reverse_ignored(v: GameView, requested: Direction)
    requires
        v.wf(),
    ensures
        Direction::reverses(requested, v.heading) ==> {
            &&& v.next_heading(Input::Turn(requested)) == v.heading
            &&& v.step(Input::Turn(requested)) == v.step(Input::Idle)
            &&& v.event(Input::Turn(requested)) == v.event(Input::Idle)
        },
        !Direction::reverses(requested, v.heading) ==> v.next_heading(Input::Turn(requested))
            == requested,
        v.running ==> v.step(Input::Turn(requested)).heading == v.next_heading(
            Input::Turn(requested),
        ),
{
}

/// Food never lies on a wall cell or on the snake: not when it is placed,
/// and not after any tick.
pub proof fn law_food_is_free(v: GameView, candidate: Cell, input: Input)
    requires
        v.wf(),
    ensures
        v.offer(candidate).wf(),
        v.offer(candidate).food matches Some(f) ==> !on_perimeter(v.cols, v.rows, f)
            && !v.body.contains(f),
        v.step(input).wf(),
        v.step(input).food matches Some(f) ==> !on_perimeter(v.cols, v.rows, f) && !v.step(
            input,
        ).body.contains(f),
{
    lemma_step_wf(v, input);
    if let Some(f) = v.offer(candidate).food {
        assert(free_cell(v.cols, v.rows, v.body, f));
    }
    if let Some(f) = v.step(input).food {
        assert(free_cell(v.cols, v.rows, v.step(input).body, f));
    }
}

} // verus!

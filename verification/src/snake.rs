//! The snake's body as an ordered sequence of cells, head first, and the
//! movement that shifts it.

use std::collections::VecDeque;
use vstd::prelude::*;
use crate::cell::Cell;
use crate::cell::Direction;

verus! {

/// The body after one move to `head`: the new head in front, and behind it
/// the whole old body when growing, else the old body without its tail.
pub open spec fn advance(body: Seq<Cell>, head: Cell, grow: bool) -> Seq<Cell> {
    if grow {
        seq![head] + body
    } else {
        seq![head] + body.drop_last()
    }
}

/// Whether a move to `p` runs into the body. The tail does not count: it
/// leaves its cell in the same tick in which the head arrives.
pub open spec fn hits_body(body: Seq<Cell>, p: Cell) -> bool {
    body.drop_last().contains(p)
}

/// A body without repetitions stays so after a move to a cell that it does
/// not run into, or, when growing, to a cell that it does not hold at all.
pub proof fn lemma_advance_distinct(body: Seq<Cell>, head: Cell, grow: bool)
    requires
        body.len() >= 1,
        body.no_duplicates(),
        if grow {
            !body.contains(head)
        } else {
            !hits_body(body, head)
        },
    ensures
        advance(body, head, grow).no_duplicates(),
{
    let rest = if grow {
        body
    } else {
        body.drop_last()
    };
    let next = advance(body, head, grow);
    assert(next =~= seq![head] + rest);
    assert forall|i: int, j: int| 0 <= i < next.len() && 0 <= j < next.len() && i != j implies next[i]
        != next[j] by {
        if i >= 1 {
            assert(next[i] == rest[i - 1]);
            assert(rest[i - 1] == body[i - 1]);
            assert(rest.contains(rest[i - 1]));
        }
        if j >= 1 {
            assert(next[j] == rest[j - 1]);
            assert(rest[j - 1] == body[j - 1]);
            assert(rest.contains(rest[j - 1]));
        }
    }
}

/// What a body holds after a move: the new head, and every old cell but,
/// unless growing, the old tail's place in the sequence.
pub proof fn lemma_advance_contains(body: Seq<Cell>, head: Cell, grow: bool, c: Cell)
    requires
        body.len() >= 1,
    ensures
        advance(body, head, grow).contains(c) ==> (c == head || body.contains(c)),
        (c == head || hits_body(body, c)) ==> advance(body, head, grow).contains(c),
        grow && body.contains(c) ==> advance(body, head, grow).contains(c),
{
    let rest = if grow {
        body
    } else {
        body.drop_last()
    };
    let next = advance(body, head, grow);
    assert(next =~= seq![head] + rest);
    if next.contains(c) {
        let i = choose|i: int| 0 <= i < next.len() && next[i] == c;
        if i >= 1 {
            assert(body[i - 1] == c);
        }
    }
    if c == head {
        assert(next[0] == c);
    }
    if rest.contains(c) {
        let i = choose|i: int| 0 <= i < rest.len() && rest[i] == c;
        assert(next[i + 1] == c);
    }
}

/// The snake: an ordered body of at least three cells, head at index 0.
pub struct Snake {
    body: VecDeque<Cell>,
}

impl View for Snake {
    type V = Seq<Cell>;

    closed spec fn view(&self) -> Seq<Cell> {
        self.body@
    }
}

impl Snake {
    /// At least three cells, each with coordinates that a board can hold.
    pub open spec fn wf(&self) -> bool {
        &&& self@.len() >= 3
        &&& forall|i: int| 0 <= i < self@.len() ==> (#[trigger] self@[i]).on_board()
    }

    /// No cell occurs twice in the body.
    pub open spec fn distinct(&self) -> bool {
        self@.no_duplicates()
    }

    /// The body of a snake of three cells lying in one row: `head`, and
    /// behind it the two cells to its left.
    pub open spec fn row_of_three(head: Cell) -> Seq<Cell> {
        seq![
            head,
            Cell { x: (head.x - 1) as i32, y: head.y },
            Cell { x: (head.x - 2) as i32, y: head.y },
        ]
    }

    /// A snake of three cells lying in one row, for a head that leaves
    /// room for the two cells behind it.
    pub fn lying(head: Cell) -> (s: Snake)
        requires
            head.on_board(),
            head.x >= 2,
        ensures
            s.wf(),
            s.distinct(),
            s@ == Snake::row_of_three(head),
    {
        let mut body: VecDeque<Cell> = VecDeque::new();
        body.push_back(head);
        body.push_back(Cell { x: head.x - 1, y: head.y });
        body.push_back(Cell { x: head.x - 2, y: head.y });
        let s = Snake { body };
        assert(s@ =~= Snake::row_of_three(head));
        s
    }

    /// A snake of three cells lying in one row: `head`, and behind it the
    /// two cells to its left. `None` when those cells are not on a board.
    pub fn new(head: Cell) -> (r: Option<Snake>)
        ensures
            r is Some <==> (head.on_board() && head.x >= 2),
            r matches Some(s) ==> s.wf() && s.distinct() && s@ == Snake::row_of_three(head),
    {
        if !head.is_on_board() || head.x < 2 {
            return None;
        }
        Some(Snake::lying(head))
    }

    /// A snake with the given cells, head first. `None` when there are
    /// fewer than three or one of them is not on a board.
    pub fn from_cells(cells: &Vec<Cell>) -> (r: Option<Snake>)
        ensures
            r is Some <==> (cells@.len() >= 3 && forall|i: int|
                0 <= i < cells@.len() ==> (#[trigger] cells@[i]).on_board()),
            r matches Some(s) ==> s.wf() && s@ == cells@,
    {
        if cells.len() < 3 {
            return None;
        }
        let mut body: VecDeque<Cell> = VecDeque::new();
        let mut i: usize = 0;
        while i < cells.len()
            invariant
                i <= cells@.len(),
                body@ == cells@.take(i as int),
                forall|k: int| 0 <= k < i ==> (#[trigger] cells@[k]).on_board(),
            decreases cells@.len() - i,
        {
            let c = cells[i];
            if !c.is_on_board() {
                return None;
            }
            body.push_back(c);
            assert(cells@.take(i as int).push(c) =~= cells@.take(i + 1));
            i = i + 1;
        }
        assert(cells@.take(i as int) =~= cells@);
        Some(Snake { body })
    }

    /// Number of cells in the body.
    pub fn len(&self) -> (n: usize)
        ensures
            n == self@.len(),
    {
        self.body.len()
    }

    /// The cell at position `i`, counted from the head.
    pub fn cell(&self, i: usize) -> (c: Cell)
        requires
            i < self@.len(),
        ensures
            c == self@[i as int],
    {
        self.body[i]
    }

    /// The first cell of the body.
    pub fn head(&self) -> (c: Cell)
        requires
            self.wf(),
        ensures
            c == self@[0],
    {
        self.body[0]
    }

    /// The last cell of the body.
    pub fn tail(&self) -> (c: Cell)
        requires
            self.wf(),
        ensures
            c == self@.last(),
    {
        self.body[self.body.len() - 1]
    }

    /// The body as a vector, head first.
    pub fn cells(&self) -> (v: Vec<Cell>)
        ensures
            v@ == self@,
    {
        let mut v: Vec<Cell> = Vec::new();
        let mut i: usize = 0;
        while i < self.body.len()
            invariant
                i <= self.body@.len(),
                v@ == self.body@.take(i as int),
            decreases self.body@.len() - i,
        {
            v.push(self.body[i]);
            assert(self.body@.take(i as int).push(self.body@[i as int]) =~= self.body@.take(
                i + 1,
            ));
            i = i + 1;
        }
        assert(self.body@.take(i as int) =~= self.body@);
        v
    }

    /// Whether `c` occurs among the first `upto` cells of the body.
    fn occurs_before(&self, c: Cell, upto: usize) -> (r: bool)
        requires
            upto <= self@.len(),
        ensures
            r == self@.take(upto as int).contains(c),
    {
        let mut i: usize = 0;
        while i < upto
            invariant
                i <= upto,
                upto <= self.body@.len(),
                forall|k: int| 0 <= k < i ==> self.body@[k] != c,
            decreases upto - i,
        {
            if self.body[i] == c {
                assert(self@.take(upto as int)[i as int] == c);
                return true;
            }
            i = i + 1;
        }
        false
    }

    /// Whether any cell of the body, tail included, is `c`.
    pub fn occupies(&self, c: Cell) -> (r: bool)
        ensures
            r == self@.contains(c),
    {
        assert(self@.take(self@.len() as int) =~= self@);
        self.occurs_before(c, self.body.len())
    }

    /// Whether no cell occurs twice in the body.
    pub fn is_distinct(&self) -> (r: bool)
        ensures
            r == self.distinct(),
    {
        let mut i: usize = 0;
        while i < self.body.len()
            invariant
                i <= self.body@.len(),
                self.body@.take(i as int).no_duplicates(),
            decreases self.body@.len() - i,
        {
            let c = self.body[i];
            if self.occurs_before(c, i) {
                proof {
                    let k = choose|k: int|
                        0 <= k < self@.take(i as int).len() && self@.take(i as int)[k] == c;
                    assert(self@[k] == self@[i as int]);
                }
                return false;
            }
            proof {
                crate::cell::lemma_push_contains(self.body@.take(i as int), c);
                assert(self.body@.take(i as int).push(c) =~= self.body@.take(i + 1));
            }
            i = i + 1;
        }
        assert(self.body@.take(i as int) =~= self.body@);
        true
    }

    /// The cell that the head would enter by one step in `direction`.
    /// Nothing is changed.
    pub fn propose_head(&self, direction: Direction) -> (p: Cell)
        requires
            self.wf(),
        ensures
            p == self@[0].shifted(direction),
            p.x == self@[0].x + direction.delta_x(),
            p.y == self@[0].y + direction.delta_y(),
    {
        self.head().step(direction)
    }

    /// Whether a move to `proposed_head` would run into the body: true
    /// exactly when that cell is held by a segment other than the tail.
    pub fn would_self_collide(&self, proposed_head: Cell) -> (r: bool)
        requires
            self.wf(),
        ensures
            r == hits_body(self@, proposed_head),
            r == exists|i: int| 0 <= i < self@.len() - 1 && self@[i] == proposed_head,
    {
        let r = self.occurs_before(proposed_head, self.body.len() - 1);
        proof {
            let front = self@.drop_last();
            assert(front =~= self@.take(self@.len() - 1));
            if r {
                let i = choose|i: int| 0 <= i < front.len() && front[i] == proposed_head;
                assert(self@[i] == proposed_head);
            }
            if exists|i: int| 0 <= i < self@.len() - 1 && self@[i] == proposed_head {
                let i = choose|i: int| 0 <= i < self@.len() - 1 && self@[i] == proposed_head;
                assert(front[i] == proposed_head);
            }
        }
        r
    }

    /// Commits a move: `proposed_head` becomes the head and every segment
    /// follows. Without food the tail leaves its cell, which is returned as
    /// the wake; with food the tail stays, the body is one longer and there
    /// is no wake.
    pub fn grow_and_shift(&mut self, proposed_head: Cell, ate_food: bool) -> (wake: Option<Cell>)
        requires
            old(self).wf(),
            proposed_head.on_board(),
        ensures
            final(self).wf(),
            final(self)@ == advance(old(self)@, proposed_head, ate_food),
            final(self)@.len() == old(self)@.len() + (if ate_food { 1int } else { 0int }),
            final(self)@[0] == proposed_head,
            wake == (if ate_food { None } else { Some(old(self)@.last()) }),
            old(self).distinct() && (if ate_food {
                !old(self)@.contains(proposed_head)
            } else {
                !hits_body(old(self)@, proposed_head)
            }) ==> final(self).distinct(),
    {
        let ghost before = self@;
        let wake = if ate_food {
            None
        } else {
            let last = self.body.pop_back();
            assert(self.body@ =~= before.drop_last());
            last
        };
        self.body.push_front(proposed_head);
        proof {
            assert(self@ =~= advance(before, proposed_head, ate_food));
            assert forall|i: int| 0 <= i < self@.len() implies (#[trigger] self@[i]).on_board() by {
                if i >= 1 {
                    assert(self@[i] == before[i - 1]);
                }
            }
            if before.no_duplicates() && (if ate_food {
                !before.contains(proposed_head)
            } else {
                !hits_body(before, proposed_head)
            }) {
                lemma_advance_distinct(before, proposed_head, ate_food);
            }
        }
        wake
    }
}

/// Moves the snake one step in `direction` without growing: the cell next
/// to the head becomes the head, every segment follows, and the cell that
/// the tail leaves is returned.
pub fn move_snake(snake: &mut Snake, direction: Direction) -> (wake: Cell)
    requires
        old(snake).wf(),
        old(snake)@[0].shifted(direction).on_board(),
    ensures
        final(snake).wf(),
        final(snake)@ == advance(old(snake)@, old(snake)@[0].shifted(direction), false),
        final(snake)@.len() == old(snake)@.len(),
        wake == old(snake)@.last(),
{
    let p = snake.propose_head(direction);
    let tail = snake.tail();
    let _ = snake.grow_and_shift(p, false);
    tail
}

} // verus!

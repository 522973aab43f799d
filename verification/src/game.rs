//! The controller: one session's state and its per-tick transition.

use rand::rngs::ThreadRng;
use vstd::prelude::*;
use crate::cell::Cell;
use crate::cell::Direction;
use crate::food::free_cell;
use crate::grid::interior;
use crate::grid::on_perimeter;
use crate::grid::Grid;
use crate::render::move_seq;
use crate::render::DrawOp;
use crate::snake::advance;
use crate::snake::hits_body;
use crate::snake::lemma_advance_contains;
use crate::snake::Snake;

verus! {

/// What the input source delivered for one tick.
#[derive(Clone, Copy, Debug, PartialEq, Eq, Structural)]
pub enum Input {
    /// Nothing arrived within the tick.
    Idle,
    /// A request to head in the given direction.
    Turn(Direction),
    /// A request to end the session.
    Quit,
}

impl Input {
    /// The meaning of a key: `w`, `a`, `s` and `d` turn up, left, down
    /// and right, the escape character quits, and any other key means
    /// nothing.
    pub open spec fn of_key(key: char) -> Input {
        if key == 'w' {
            Input::Turn(Direction::Up)
        } else if key == 'a' {
            Input::Turn(Direction::Left)
        } else if key == 's' {
            Input::Turn(Direction::Down)
        } else if key == 'd' {
            Input::Turn(Direction::Right)
        } else if key == '\u{1b}' {
            Input::Quit
        } else {
            Input::Idle
        }
    }

    /// Reads a key as an input.
    pub fn from_key(key: char) -> (r: Input)
        ensures
            r == Input::of_key(key),
    {
        if key == 'w' {
            Input::Turn(Direction::Up)
        } else if key == 'a' {
            Input::Turn(Direction::Left)
        } else if key == 's' {
            Input::Turn(Direction::Down)
        } else if key == 'd' {
            Input::Turn(Direction::Right)
        } else if key == '\u{1b}' {
            Input::Quit
        } else {
            Input::Idle
        }
    }
}

/// What one tick did.
#[derive(Clone, Copy, Debug, PartialEq, Eq, Structural)]
pub enum TickEvent {
    /// The snake moved one cell; the tail left the given wake cell.
    Moved(Cell),
    /// The snake moved onto the food and grew by one.
    Ate,
    /// The next cell was a wall: the game is lost.
    HitWall,
    /// The next cell was held by the body: the game is lost.
    HitSelf,
    /// The player asked to quit: the session is over.
    Quit,
    /// The session had ended before; nothing changed.
    Over,
}

/// The result of one tick: what happened, and what to draw for it.
pub struct Tick {
    pub event: TickEvent,
    pub ops: Vec<DrawOp>,
}

/// The mathematical state of a session.
pub struct GameView {
    pub cols: int,
    pub rows: int,
    pub body: Seq<Cell>,
    pub heading: Direction,
    pub food: Option<Cell>,
    pub score: nat,
    pub running: bool,
}

impl GameView {
    /// The session invariant: a playable grid; a snake of three or more
    /// distinct cells, none on a wall; food, if any, on a playable cell
    /// that the snake does not hold; and a score that counts no more than
    /// the cells that the snake has gained.
    pub open spec fn wf(self) -> bool {
        &&& 5 <= self.cols <= 65535
        &&& 5 <= self.rows <= 65535
        &&& self.body.len() >= 3
        &&& self.body.no_duplicates()
        &&& forall|i: int|
            0 <= i < self.body.len() ==> interior(self.cols, self.rows, #[trigger] self.body[i])
        &&& self.food matches Some(f) ==> free_cell(self.cols, self.rows, self.body, f)
        &&& self.score + 3 <= self.body.len()
    }

    /// The heading for this tick: a turn is taken unless it reverses.
    pub open spec fn next_heading(self, input: Input) -> Direction {
        match input {
            Input::Turn(d) => Direction::steered(self.heading, d),
            _ => self.heading,
        }
    }

    /// The cell that the head enters in this tick.
    pub open spec fn next_head(self, input: Input) -> Cell {
        self.body[0].shifted(self.next_heading(input))
    }

    /// What a tick with the given input does in this state.
    pub open spec fn event(self, input: Input) -> TickEvent {
        let p = self.next_head(input);
        if !self.running {
            TickEvent::Over
        } else if input == Input::Quit {
            TickEvent::Quit
        } else if on_perimeter(self.cols, self.rows, p) {
            TickEvent::HitWall
        } else if hits_body(self.body, p) {
            TickEvent::HitSelf
        } else if self.food == Some(p) {
            TickEvent::Ate
        } else {
            TickEvent::Moved(self.body.last())
        }
    }

    /// The state after a tick with the given input.
    pub open spec fn step(self, input: Input) -> GameView {
        let p = self.next_head(input);
        let heading = self.next_heading(input);
        match self.event(input) {
            TickEvent::Over => self,
            TickEvent::Quit => GameView { running: false, ..self },
            TickEvent::HitWall => GameView { running: false, heading, ..self },
            TickEvent::HitSelf => GameView { running: false, heading, ..self },
            TickEvent::Ate => GameView {
                body: advance(self.body, p, true),
                heading,
                food: None,
                score: self.score + 1,
                ..self
            },
            TickEvent::Moved(_) => GameView { body: advance(self.body, p, false), heading, ..self },
        }
    }

    /// The drawing instructions of a tick with the given input: for a
    /// move, the wake cleared and tail and head painted; for a meal, tail
    /// and head painted; otherwise none.
    pub open spec fn ops(self, input: Input) -> Seq<DrawOp> {
        match self.event(input) {
            TickEvent::Ate => move_seq(self.step(input).body, None),
            TickEvent::Moved(w) => move_seq(self.step(input).body, Some(w)),
            _ => Seq::empty(),
        }
    }

    /// The state with food offered on `c`: taken while the game runs, no
    /// food exists and the cell is free; else nothing changes.
    pub open spec fn offer(self, c: Cell) -> GameView {
        if self.running && self.food is None && free_cell(self.cols, self.rows, self.body, c) {
            GameView { food: Some(c), ..self }
        } else {
            self
        }
    }
}

/// A tick keeps the session invariant.
pub proof fn lemma_step_wf(v: GameView, input: Input)
    requires
        v.wf(),
    ensures
        v.step(input).wf(),
{
    let p = v.next_head(input);
    let next = v.step(input);
    assert(interior(v.cols, v.rows, v.body[0]));
    match v.event(input) {
        TickEvent::Ate => {
            crate::snake::lemma_advance_distinct(v.body, p, true);
            assert forall|i: int| 0 <= i < next.body.len() implies interior(
                v.cols,
                v.rows,
                #[trigger] next.body[i],
            ) by {
                if i >= 1 {
                    assert(next.body[i] == v.body[i - 1]);
                }
            }
        },
        TickEvent::Moved(_) => {
            crate::snake::lemma_advance_distinct(v.body, p, false);
            assert forall|i: int| 0 <= i < next.body.len() implies interior(
                v.cols,
                v.rows,
                #[trigger] next.body[i],
            ) by {
                if i >= 1 {
                    assert(next.body[i] == v.body[i - 1]);
                }
            }
            if let Some(f) = v.food {
                lemma_advance_contains(v.body, p, false, f);
            }
        },
        _ => {},
    }
}

/// One session: the grid, the snake, its heading, the food and the score.
pub struct Game {
    grid: Grid,
    snake: Snake,
    heading: Direction,
    food: Option<Cell>,
    score: u64,
    running: bool,
}

impl View for Game {
    type V = GameView;

    closed spec fn view(&self) -> GameView {
        GameView {
            cols: self.grid.cols(),
            rows: self.grid.rows(),
            body: self.snake@,
            heading: self.heading,
            food: self.food,
            score: self.score as nat,
            running: self.running,
        }
    }
}

impl Game {
    /// The stored grid and snake are themselves valid.
    pub closed spec fn parts_wf(&self) -> bool {
        &&& self.grid.wf()
        &&& self.snake.wf()
    }

    /// The parts are valid and the state keeps the session invariant.
    pub open spec fn wf(&self) -> bool {
        &&& self.parts_wf()
        &&& self@.wf()
    }

    /// Column of the starting head: a third of the width, but far enough
    /// from the left wall for the two cells behind the head.
    pub open spec fn start_column(cols: int) -> int {
        if cols / 3 >= 3 {
            cols / 3
        } else {
            3
        }
    }

    /// The body at the start of a session on a grid of the given size: three
    /// cells in the middle row, the head rightmost.
    pub open spec fn start_body(cols: int, rows: int) -> Seq<Cell> {
        let x = Game::start_column(cols);
        let y = rows / 2;
        seq![
            Cell { x: x as i32, y: y as i32 },
            Cell { x: (x - 1) as i32, y: y as i32 },
            Cell { x: (x - 2) as i32, y: y as i32 },
        ]
    }

    /// A fresh session on `grid`: running, the snake three cells long in
    /// the middle row and heading right, no food, score 0.
    pub fn new(grid: Grid) -> (g: Game)
        requires
            grid.wf(),
        ensures
            g.wf(),
            g@ == (GameView {
                cols: grid.cols(),
                rows: grid.rows(),
                body: Game::start_body(grid.cols(), grid.rows()),
                heading: Direction::Right,
                food: None,
                score: 0,
                running: true,
            }),
    {
        let third = (grid.width() / 3) as i32;
        let x: i32 = if third >= 3 {
            third
        } else {
            3
        };
        let y: i32 = (grid.height() / 2) as i32;
        let snake = Snake::lying(Cell { x, y });
        assert(snake@ =~= Game::start_body(grid.cols(), grid.rows()));
        Game { grid, snake, heading: Direction::Right, food: None, score: 0, running: true }
    }

    /// A running session with the given parts and score 0. `None` unless
    /// every cell of the snake is a playable cell of the grid, no cell
    /// occurs twice in it, and the food, if any, lies on a playable cell
    /// that the snake does not hold.
    pub fn from_parts(grid: Grid, snake: Snake, heading: Direction, food: Option<Cell>) -> (r:
        Option<Game>)
        requires
            grid.wf(),
            snake.wf(),
        ensures
            r is Some <==> (GameView {
                cols: grid.cols(),
                rows: grid.rows(),
                body: snake@,
                heading,
                food,
                score: 0,
                running: true,
            }).wf(),
            r matches Some(g) ==> g.wf() && g@ == (GameView {
                cols: grid.cols(),
                rows: grid.rows(),
                body: snake@,
                heading,
                food,
                score: 0,
                running: true,
            }),
    {
        let n = snake.len();
        let mut i: usize = 0;
        while i < n
            invariant
                i <= n,
                n == snake@.len(),
                forall|k: int|
                    0 <= k < i ==> interior(grid.cols(), grid.rows(), #[trigger] snake@[k]),
            decreases n - i,
        {
            if !grid.is_interior(snake.cell(i)) {
                return None;
            }
            i = i + 1;
        }
        if !snake.is_distinct() {
            return None;
        }
        match food {
            Some(f) => {
                if !grid.is_interior(f) || snake.occupies(f) {
                    return None;
                }
            },
            None => {},
        }
        Some(Game { grid, snake, heading, food, score: 0, running: true })
    }

    /// Offers `candidate` as the place of the next food. It is taken
    /// exactly when the game runs, no food exists, and the cell is neither
    /// a wall, nor outside the grid, nor held by the snake.
    pub fn offer_food(&mut self, candidate: Cell) -> (placed: bool)
        requires
            old(self).wf(),
        ensures
            final(self).wf(),
            final(self)@ == old(self)@.offer(candidate),
            placed == (old(self)@.running && old(self)@.food is None && free_cell(
                old(self)@.cols,
                old(self)@.rows,
                old(self)@.body,
                candidate,
            )),
    {
        if !self.running || self.food.is_some() {
            return false;
        }
        match crate::food::accept(&self.grid, &self.snake, candidate) {
            Some(c) => {
                self.food = Some(c);
                true
            },
            None => false,
        }
    }

    /// One attempt to place food at random, made only while the game runs
    /// and no food exists. Whatever is drawn, nothing but the food changes,
    /// and food that appears lies on a playable cell that the snake does
    /// not hold.
    pub fn spawn_food(&mut self, rng: &mut ThreadRng) -> (placed: bool)
        requires
            old(self).wf(),
        ensures
            final(self).wf(),
            placed ==> old(self)@.running && old(self)@.food is None,
            placed <==> final(self)@ != old(self)@,
            final(self)@ == (GameView { food: final(self)@.food, ..old(self)@ }),
            placed ==> (final(self)@.food matches Some(f) && free_cell(
                old(self)@.cols,
                old(self)@.rows,
                old(self)@.body,
                f,
            )),
    {
        if !self.running || self.food.is_some() {
            return false;
        }
        let c = crate::food::candidate(&self.grid, rng);
        self.offer_food(c)
    }

    /// Up to `attempts` attempts to place food at random, ending with the
    /// first that places it. Whatever is drawn, nothing but the food
    /// changes, and food that appears lies on a playable cell that the
    /// snake does not hold.
    pub fn replenish_food(&mut self, rng: &mut ThreadRng, attempts: u32) -> (placed: bool)
        requires
            old(self).wf(),
        ensures
            final(self).wf(),
            placed ==> old(self)@.running && old(self)@.food is None && attempts > 0,
            placed <==> final(self)@ != old(self)@,
            final(self)@ == (GameView { food: final(self)@.food, ..old(self)@ }),
            placed ==> (final(self)@.food matches Some(f) && free_cell(
                old(self)@.cols,
                old(self)@.rows,
                old(self)@.body,
                f,
            )),
    {
        let mut left: u32 = attempts;
        while left > 0
            invariant
                left <= attempts,
                self.wf(),
                self@ == old(self)@,
            decreases left,
        {
            if self.spawn_food(rng) {
                return true;
            }
            left = left - 1;
        }
        false
    }

    /// One tick. A finished session stays as it is and a quit request ends
    /// it. Otherwise the heading follows the input unless that would
    /// reverse it, and the head's next cell decides: a wall or a body
    /// segment other than the tail ends the game; food is eaten, which
    /// grows the snake by one and adds one to the score; any other cell is
    /// simply entered.
    pub fn step(&mut self, input: Input) -> (t: Tick)
        requires
            old(self).wf(),
        ensures
            final(self).wf(),
            final(self)@ == old(self)@.step(input),
            t.event == old(self)@.event(input),
            t.ops@ == old(self)@.ops(input),
            final(self)@.body.len() == old(self)@.body.len() + (if t.event == TickEvent::Ate {
                1int
            } else {
                0int
            }),
    {
        proof {
            lemma_step_wf(self@, input);
        }
        if !self.running {
            return Tick { event: TickEvent::Over, ops: Vec::new() };
        }
        let heading = match input {
            Input::Quit => {
                self.running = false;
                return Tick { event: TickEvent::Quit, ops: Vec::new() };
            },
            Input::Turn(d) => Direction::steer(self.heading, d),
            Input::Idle => self.heading,
        };
        self.heading = heading;
        let p = self.snake.propose_head(heading);
        if self.grid.is_wall(p) {
            self.running = false;
            return Tick { event: TickEvent::HitWall, ops: Vec::new() };
        }
        if self.snake.would_self_collide(p) {
            self.running = false;
            return Tick { event: TickEvent::HitSelf, ops: Vec::new() };
        }
        assert(interior(self.grid.cols(), self.grid.rows(), self.snake@[0]));
        let ate = match self.food {
            Some(f) => f == p,
            None => false,
        };
        if ate {
            let len = self.snake.len();
            assert(self.score + 3 <= len);
            self.food = None;
            self.score = self.score + 1;
        }
        let event = if ate {
            TickEvent::Ate
        } else {
            TickEvent::Moved(self.snake.tail())
        };
        let wake = self.snake.grow_and_shift(p, ate);
        let ops = crate::render::move_ops(&self.snake, wake);
        Tick { event, ops }
    }

    /// The grid of this session.
    pub fn grid(&self) -> (g: &Grid)
        ensures
            g.cols() == self@.cols,
            g.rows() == self@.rows,
            self.wf() ==> g.wf(),
    {
        &self.grid
    }

    /// The snake as it stands.
    pub fn snake(&self) -> (s: &Snake)
        ensures
            s@ == self@.body,
            self.wf() ==> s.wf() && s.distinct(),
    {
        &self.snake
    }

    /// The direction of the last move, or of the start.
    pub fn heading(&self) -> (d: Direction)
        ensures
            d == self@.heading,
    {
        self.heading
    }

    /// The food, if any exists.
    pub fn food(&self) -> (f: Option<Cell>)
        ensures
            f == self@.food,
    {
        self.food
    }

    /// How often food was eaten.
    pub fn score(&self) -> (s: u64)
        ensures
            s == self@.score,
    {
        self.score
    }

    /// Whether the session still runs.
    pub fn is_running(&self) -> (r: bool)
        ensures
            r == self@.running,
    {
        self.running
    }
}

} // verus!

use snake_game::cell::{Cell, Direction};
use snake_game::food::{accept, candidate, spawn};
use snake_game::game::{Game, Input, TickEvent};
use snake_game::grid::Grid;
use snake_game::render::{DrawOp, Glyph};
use snake_game::snake::Snake;

fn cells(v: &[(i32, i32)]) -> Vec<Cell> {
    v.iter().map(|p| Cell::new(p.0, p.1)).collect()
}

fn snake_of(v: &[(i32, i32)]) -> Snake {
    Snake::from_cells(&cells(v)).unwrap()
}

fn game_of(w: u16, h: u16, body: &[(i32, i32)], d: Direction, food: Option<(i32, i32)>) -> Game {
    let grid = Grid::new(w, h).ok().unwrap();
    Game::from_parts(grid, snake_of(body), d, food.map(|p| Cell::new(p.0, p.1))).unwrap()
}

#[test]
fn fresh_session() {
    let g = Game::new(Grid::new(50, 20).ok().unwrap());
    assert!(g.is_running());
    assert_eq!(g.score(), 0);
    assert_eq!(g.food(), None);
    assert_eq!(g.heading(), Direction::Right);
    assert_eq!(g.snake().cells(), cells(&[(16, 10), (15, 10), (14, 10)]));
    assert_eq!(g.grid().width(), 50);
    assert_eq!(g.grid().height(), 20);
}

#[test]
fn fresh_session_on_the_smallest_grid() {
    let g = Game::new(Grid::new(5, 5).ok().unwrap());
    assert_eq!(g.snake().cells(), cells(&[(3, 2), (2, 2), (1, 2)]));
    for c in g.snake().cells() {
        assert!(g.grid().is_interior(c));
    }
}

#[test]
fn from_parts_checks_the_invariant() {
    let grid = || Grid::new(10, 10).ok().unwrap();
    let ok = [(4, 4), (3, 4), (2, 4)];
    assert!(Game::from_parts(grid(), snake_of(&ok), Direction::Right, None).is_some());
    // a cell on the wall
    assert!(Game::from_parts(grid(), snake_of(&[(2, 4), (1, 4), (0, 4)]), Direction::Right, None).is_none());
    // a cell twice
    assert!(Game::from_parts(grid(), snake_of(&[(4, 4), (3, 4), (4, 4)]), Direction::Right, None).is_none());
    // food on the snake, on the wall, outside
    assert!(Game::from_parts(grid(), snake_of(&ok), Direction::Right, Some(Cell::new(3, 4))).is_none());
    assert!(Game::from_parts(grid(), snake_of(&ok), Direction::Right, Some(Cell::new(9, 4))).is_none());
    assert!(Game::from_parts(grid(), snake_of(&ok), Direction::Right, Some(Cell::new(12, 4))).is_none());
    assert!(Game::from_parts(grid(), snake_of(&ok), Direction::Right, Some(Cell::new(5, 4))).is_some());
}

#[test]
fn wall_contact_loses() {
    let mut g = game_of(10, 10, &[(8, 5), (7, 5), (6, 5)], Direction::Right, None);
    assert!(g.grid().is_wall(Cell::new(9, 5)));
    let t = g.step(Input::Idle);
    assert_eq!(t.event, TickEvent::HitWall);
    assert!(t.ops.is_empty());
    assert!(!g.is_running());
    assert_eq!(g.snake().cells(), cells(&[(8, 5), (7, 5), (6, 5)]));
}

#[test]
fn eating_food_grows_and_scores() {
    let mut g = game_of(10, 10, &[(4, 4), (3, 4), (2, 4)], Direction::Right, Some((5, 4)));
    let t = g.step(Input::Idle);
    assert_eq!(t.event, TickEvent::Ate);
    assert_eq!(g.snake().head(), Cell::new(5, 4));
    assert_eq!(g.food(), None);
    assert_eq!(g.score(), 1);
    assert_eq!(g.snake().len(), 4);
    assert_eq!(g.snake().cells(), cells(&[(5, 4), (4, 4), (3, 4), (2, 4)]));
    assert!(g.is_running());
    assert_eq!(
        t.ops,
        vec![
            DrawOp::Draw(Cell::new(2, 4), Glyph::Tail),
            DrawOp::Draw(Cell::new(5, 4), Glyph::Head),
        ]
    );
}

#[test]
fn full_session_without_input() {
    let run = || {
        let mut g = Game::new(Grid::new(50, 20).ok().unwrap());
        let mut events = Vec::new();
        for _ in 0..100 {
            events.push(g.step(Input::Idle).event);
        }
        (events, g.snake().cells(), g.score(), g.is_running())
    };
    let (events, body, score, running) = run();
    for k in 0..32 {
        assert_eq!(events[k], TickEvent::Moved(Cell::new(14 + k as i32, 10)));
    }
    assert_eq!(events[3], TickEvent::Moved(Cell::new(17, 10)));
    assert_eq!(events[32], TickEvent::HitWall);
    for k in 33..100 {
        assert_eq!(events[k], TickEvent::Over);
    }
    assert_eq!(body, cells(&[(48, 10), (47, 10), (46, 10)]));
    assert_eq!(score, 0);
    assert!(!running);
    assert_eq!(run(), (events, body, score, running));
}

#[test]
fn plain_move_draws_head_and_tail_and_clears_the_wake() {
    let mut g = game_of(10, 10, &[(4, 4), (3, 4), (2, 4)], Direction::Right, Some((7, 7)));
    let t = g.step(Input::Turn(Direction::Down));
    assert_eq!(t.event, TickEvent::Moved(Cell::new(2, 4)));
    assert_eq!(
        t.ops,
        vec![
            DrawOp::Erase(Cell::new(2, 4)),
            DrawOp::Draw(Cell::new(3, 4), Glyph::Tail),
            DrawOp::Draw(Cell::new(4, 5), Glyph::Head),
        ]
    );
    assert_eq!(g.snake().cells(), cells(&[(4, 5), (4, 4), (3, 4)]));
    assert_eq!(g.heading(), Direction::Down);
    assert_eq!(g.food(), Some(Cell::new(7, 7)));
    assert_eq!(g.score(), 0);
}

#[test]
fn reverse_input_is_discarded() {
    let mut g = game_of(10, 10, &[(4, 4), (3, 4), (2, 4)], Direction::Right, None);
    let t = g.step(Input::Turn(Direction::Left));
    assert_eq!(t.event, TickEvent::Moved(Cell::new(2, 4)));
    assert_eq!(g.heading(), Direction::Right);
    assert_eq!(g.snake().head(), Cell::new(5, 4));
    g.step(Input::Turn(Direction::Up));
    assert_eq!(g.heading(), Direction::Up);
    assert_eq!(g.snake().head(), Cell::new(5, 3));
    g.step(Input::Turn(Direction::Down));
    assert_eq!(g.heading(), Direction::Up);
    assert_eq!(g.snake().head(), Cell::new(5, 2));
}

#[test]
fn running_into_the_body_loses() {
    // head (3,3) heading up; turning left enters (2,3), an inner segment
    let mut g = game_of(
        10,
        10,
        &[(3, 3), (3, 4), (2, 4), (2, 3), (2, 2), (1, 2)],
        Direction::Up,
        None,
    );
    let t = g.step(Input::Turn(Direction::Left));
    assert_eq!(t.event, TickEvent::HitSelf);
    assert!(!g.is_running());
    assert_eq!(g.snake().len(), 6);
}

#[test]
fn entering_the_tail_cell_is_legal() {
    let mut g = game_of(10, 10, &[(2, 2), (2, 1), (1, 1), (1, 2)], Direction::Down, None);
    let t = g.step(Input::Turn(Direction::Left));
    assert_eq!(t.event, TickEvent::Moved(Cell::new(1, 2)));
    assert!(g.is_running());
    assert_eq!(g.snake().cells(), cells(&[(1, 2), (2, 2), (2, 1), (1, 1)]));
    assert_eq!(*t.ops.last().unwrap(), DrawOp::Draw(Cell::new(1, 2), Glyph::Head));
    assert_eq!(t.ops[0], DrawOp::Erase(Cell::new(1, 2)));
}

#[test]
fn quit_ends_the_session() {
    let mut g = game_of(10, 10, &[(4, 4), (3, 4), (2, 4)], Direction::Right, None);
    let t = g.step(Input::Quit);
    assert_eq!(t.event, TickEvent::Quit);
    assert!(!g.is_running());
    assert_eq!(g.snake().cells(), cells(&[(4, 4), (3, 4), (2, 4)]));
    let t = g.step(Input::Turn(Direction::Up));
    assert_eq!(t.event, TickEvent::Over);
    assert_eq!(g.heading(), Direction::Right);
    assert!(t.ops.is_empty());
}

#[test]
fn keys_to_input() {
    assert_eq!(Input::from_key('w'), Input::Turn(Direction::Up));
    assert_eq!(Input::from_key('a'), Input::Turn(Direction::Left));
    assert_eq!(Input::from_key('s'), Input::Turn(Direction::Down));
    assert_eq!(Input::from_key('d'), Input::Turn(Direction::Right));
    assert_eq!(Input::from_key('\u{1b}'), Input::Quit);
    assert_eq!(Input::from_key('x'), Input::Idle);
}

#[test]
fn accept_applies_the_rejection_rule() {
    let grid = Grid::new(10, 10).ok().unwrap();
    let s = snake_of(&[(4, 4), (3, 4), (2, 4)]);
    assert_eq!(accept(&grid, &s, Cell::new(5, 5)), Some(Cell::new(5, 5)));
    assert_eq!(accept(&grid, &s, Cell::new(0, 5)), None);
    assert_eq!(accept(&grid, &s, Cell::new(9, 9)), None);
    assert_eq!(accept(&grid, &s, Cell::new(3, 4)), None);
    assert_eq!(accept(&grid, &s, Cell::new(2, 4)), None);
    assert_eq!(accept(&grid, &s, Cell::new(10, 4)), None);
}

#[test]
fn candidates_lie_within_the_grid() {
    let grid = Grid::new(7, 5).ok().unwrap();
    let mut rng = rand::rng();
    let mut seen_wall = false;
    let mut seen_inside = false;
    for _ in 0..2000 {
        let c = candidate(&grid, &mut rng);
        assert!(grid.contains(c));
        assert!(0 <= c.x && c.x < 7 && 0 <= c.y && c.y < 5);
        seen_wall = seen_wall || grid.is_wall(c);
        seen_inside = seen_inside || grid.is_interior(c);
    }
    assert!(seen_wall && seen_inside);
}

#[test]
fn spawn_never_yields_a_wall_or_snake_cell() {
    let mut rng = rand::rng();
    for (w, h) in [(5u16, 5u16), (6, 9), (50, 20)] {
        let grid = Grid::new(w, h).ok().unwrap();
        let s = snake_of(&[(3, 2), (2, 2), (1, 2), (1, 1)]);
        let mut placed = 0;
        for _ in 0..2000 {
            if let Some(c) = spawn(&grid, &s, &mut rng) {
                assert!(!grid.is_wall(c));
                assert!(grid.is_interior(c));
                assert!(!s.occupies(c));
                placed += 1;
            }
        }
        assert!(placed > 0);
    }
}

#[test]
fn offered_food_is_taken_only_on_a_free_cell() {
    let mut g = game_of(10, 10, &[(4, 4), (3, 4), (2, 4)], Direction::Right, None);
    assert!(!g.offer_food(Cell::new(0, 0)));
    assert_eq!(g.food(), None);
    assert!(!g.offer_food(Cell::new(3, 4)));
    assert_eq!(g.food(), None);
    assert!(g.offer_food(Cell::new(6, 6)));
    assert_eq!(g.food(), Some(Cell::new(6, 6)));
    assert!(!g.offer_food(Cell::new(7, 7)));
    assert_eq!(g.food(), Some(Cell::new(6, 6)));
}

#[test]
fn no_food_is_placed_once_the_session_is_over() {
    let mut g = game_of(10, 10, &[(4, 4), (3, 4), (2, 4)], Direction::Right, None);
    g.step(Input::Quit);
    assert!(!g.offer_food(Cell::new(6, 6)));
    let mut rng = rand::rng();
    assert!(!g.spawn_food(&mut rng));
    assert_eq!(g.food(), None);
}

#[test]
fn spawned_food_is_on_a_free_cell() {
    let mut rng = rand::rng();
    for _ in 0..200 {
        let mut g = game_of(6, 6, &[(4, 4), (3, 4), (2, 4), (2, 3)], Direction::Right, None);
        let mut tries = 0;
        while !g.spawn_food(&mut rng) {
            assert_eq!(g.food(), None);
            tries += 1;
            assert!(tries < 100000);
        }
        let f = g.food().unwrap();
        assert!(g.grid().is_interior(f));
        assert!(!g.snake().occupies(f));
        assert!(!g.spawn_food(&mut rng));
        assert_eq!(g.food(), Some(f));
        assert_eq!(g.score(), 0);
        assert_eq!(g.snake().len(), 4);
    }
}

#[test]
fn score_counts_each_meal_once() {
    let mut g = game_of(12, 10, &[(4, 4), (3, 4), (2, 4)], Direction::Right, Some((5, 4)));
    assert_eq!(g.step(Input::Idle).event, TickEvent::Ate);
    assert!(g.offer_food(Cell::new(6, 4)));
    assert_eq!(g.step(Input::Idle).event, TickEvent::Ate);
    assert_eq!(g.step(Input::Idle).event, TickEvent::Moved(Cell::new(2, 4)));
    assert_eq!(g.score(), 2);
    assert_eq!(g.snake().len(), 5);
    assert_eq!(g.snake().cells(), cells(&[(7, 4), (6, 4), (5, 4), (4, 4), (3, 4)]));
}

#[test]
fn replenishing_stops_at_the_first_placement() {
    let mut rng = rand::rng();
    let mut g = game_of(8, 8, &[(4, 4), (3, 4), (2, 4)], Direction::Right, None);
    assert!(!g.replenish_food(&mut rng, 0));
    assert_eq!(g.food(), None);
    let mut rounds = 0;
    while !g.replenish_food(&mut rng, 50) {
        assert_eq!(g.food(), None);
        rounds += 1;
        assert!(rounds < 10000);
    }
    let f = g.food().unwrap();
    assert!(g.grid().is_interior(f));
    assert!(!g.snake().occupies(f));
    assert!(!g.replenish_food(&mut rng, 50));
    assert_eq!(g.food(), Some(f));
    assert_eq!(g.snake().cells(), cells(&[(4, 4), (3, 4), (2, 4)]));
    assert_eq!(g.heading(), Direction::Right);
}

#[test]
fn food_stays_until_it_is_eaten() {
    let mut g = game_of(12, 10, &[(4, 4), (3, 4), (2, 4)], Direction::Right, Some((6, 4)));
    assert_eq!(g.step(Input::Idle).event, TickEvent::Moved(Cell::new(2, 4)));
    assert_eq!(g.food(), Some(Cell::new(6, 4)));
    assert_eq!(g.step(Input::Idle).event, TickEvent::Ate);
    assert_eq!(g.food(), None);
    assert_eq!(g.score(), 1);
}

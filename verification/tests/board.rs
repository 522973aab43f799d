use snake_game::cell::{Cell, Direction};
use snake_game::grid::{Grid, GridError};

#[test]
fn grid_rejects_small_width() {
    assert_eq!(Grid::new(4, 10).err(), Some(GridError::InvalidDimensions));
    assert_eq!(Grid::new(0, 10).err(), Some(GridError::InvalidDimensions));
}

#[test]
fn grid_rejects_small_height() {
    assert_eq!(Grid::new(10, 4).err(), Some(GridError::InvalidDimensions));
    assert_eq!(Grid::new(4, 4).err(), Some(GridError::InvalidDimensions));
}

#[test]
fn grid_accepts_smallest_playable_size() {
    let g = Grid::new(5, 5).ok().unwrap();
    assert_eq!(g.width(), 5);
    assert_eq!(g.height(), 5);
    assert_eq!(g.perimeter().len(), 16);
}

#[test]
fn grid_keeps_its_dimensions() {
    let g = Grid::new(50, 20).ok().unwrap();
    assert_eq!(g.width(), 50);
    assert_eq!(g.height(), 20);
}

#[test]
fn walls_are_the_perimeter() {
    let g = Grid::new(10, 7).ok().unwrap();
    for y in -1..8 {
        for x in -1..11 {
            let c = Cell::new(x, y);
            let inside = 0 <= x && x < 10 && 0 <= y && y < 7;
            let edge = x == 0 || x == 9 || y == 0 || y == 6;
            assert_eq!(g.contains(c), inside);
            assert_eq!(g.is_wall(c), inside && edge);
            assert_eq!(g.is_interior(c), inside && !edge);
        }
    }
}

#[test]
fn perimeter_holds_each_wall_cell_once() {
    let g = Grid::new(10, 7).ok().unwrap();
    let walls = g.perimeter();
    assert_eq!(walls.len(), 2 * 10 + 2 * 7 - 4);
    for (i, c) in walls.iter().enumerate() {
        assert!(g.is_wall(*c));
        for d in walls.iter().skip(i + 1) {
            assert_ne!(c, d);
        }
    }
    for y in 0..7 {
        for x in 0..10 {
            let c = Cell::new(x, y);
            assert_eq!(walls.contains(&c), g.is_wall(c));
        }
    }
}

#[test]
fn perimeter_goes_row_by_row() {
    let g = Grid::new(5, 5).ok().unwrap();
    let walls = g.perimeter();
    assert_eq!(walls[0], Cell::new(0, 0));
    assert_eq!(walls[4], Cell::new(4, 0));
    assert_eq!(walls[5], Cell::new(0, 1));
    assert_eq!(walls[6], Cell::new(4, 1));
    assert_eq!(walls[15], Cell::new(4, 4));
}

#[test]
fn unit_steps() {
    assert_eq!((Direction::Up.dx(), Direction::Up.dy()), (0, -1));
    assert_eq!((Direction::Down.dx(), Direction::Down.dy()), (0, 1));
    assert_eq!((Direction::Left.dx(), Direction::Left.dy()), (-1, 0));
    assert_eq!((Direction::Right.dx(), Direction::Right.dy()), (1, 0));
}

#[test]
fn opposite_directions() {
    assert_eq!(Direction::Up.opposite(), Direction::Down);
    assert_eq!(Direction::Down.opposite(), Direction::Up);
    assert_eq!(Direction::Left.opposite(), Direction::Right);
    assert_eq!(Direction::Right.opposite(), Direction::Left);
}

#[test]
fn is_reverse_only_for_the_opposite() {
    let all = [Direction::Up, Direction::Down, Direction::Left, Direction::Right];
    for a in all {
        for b in all {
            assert_eq!(Direction::is_reverse(a, b), a == b.opposite());
        }
    }
}

#[test]
fn steer_discards_a_reversal() {
    assert_eq!(Direction::steer(Direction::Right, Direction::Up), Direction::Up);
    assert_eq!(Direction::steer(Direction::Right, Direction::Down), Direction::Down);
    assert_eq!(Direction::steer(Direction::Right, Direction::Left), Direction::Right);
    assert_eq!(Direction::steer(Direction::Right, Direction::Right), Direction::Right);
    assert_eq!(Direction::steer(Direction::Up, Direction::Down), Direction::Up);
}

#[test]
fn cell_steps_to_its_neighbour() {
    let c = Cell::new(4, 4);
    assert_eq!(c.step(Direction::Right), Cell::new(5, 4));
    assert_eq!(c.step(Direction::Left), Cell::new(3, 4));
    assert_eq!(c.step(Direction::Up), Cell::new(4, 3));
    assert_eq!(c.step(Direction::Down), Cell::new(4, 5));
    assert_eq!(Cell::new(0, 0).step(Direction::Left), Cell::new(-1, 0));
}

#[test]
fn cell_board_range() {
    assert!(Cell::new(0, 0).is_on_board());
    assert!(Cell::new(65535, 65535).is_on_board());
    assert!(!Cell::new(-1, 0).is_on_board());
    assert!(!Cell::new(0, 65536).is_on_board());
}

#[test]
fn perimeter_is_in_reading_order() {
    let g = Grid::new(9, 6).ok().unwrap();
    let walls = g.perimeter();
    for pair in walls.windows(2) {
        let (a, b) = (pair[0], pair[1]);
        assert!(a.y < b.y || (a.y == b.y && a.x < b.x));
    }
}

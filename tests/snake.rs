use snake_core::control::DirectionController;
use snake_core::geometry::{Direction, Point};
use snake_core::snake::Snake;

fn pt(x: u16, y: u16) -> Point {
    Point { x, y }
}

#[test]
fn controller_refuses_reversal() {
    let mut c = DirectionController::new(Direction::Right);
    c.request(Direction::Left);
    assert_eq!(c.current(), Direction::Right);
    c.request(Direction::Up);
    assert_eq!(c.current(), Direction::Up);
    c.request(Direction::Down);
    assert_eq!(c.current(), Direction::Up);
    c.request(Direction::Left);
    assert_eq!(c.current(), Direction::Left);
    c.request(Direction::Right);
    assert_eq!(c.current(), Direction::Left);
}

#[test]
fn controller_never_commits_opposite() {
    let dirs = [Direction::Up, Direction::Down, Direction::Left, Direction::Right];
    let mut c = DirectionController::new(Direction::Up);
    for i in 0..64usize {
        let before = c.current();
        c.request(dirs[(i * 7 + i / 3) % 4]);
        assert_ne!(c.current(), before.opposite());
    }
}

#[test]
fn snake_starts_with_three_cells() {
    let s = Snake::new();
    assert_eq!(s.body, vec![pt(5, 5), pt(4, 5), pt(3, 5)]);
    assert_eq!(s.head(), pt(5, 5));
    assert_eq!(s.len(), 3);
}

#[test]
fn advance_without_food_keeps_length() {
    let mut s = Snake::new();
    s.advance(pt(6, 5), false);
    assert_eq!(s.body, vec![pt(6, 5), pt(5, 5), pt(4, 5)]);
    assert_eq!(s.len(), 3);
}

#[test]
fn advance_with_food_grows() {
    let mut s = Snake::new();
    s.advance(pt(5, 4), true);
    assert_eq!(s.body, vec![pt(5, 4), pt(5, 5), pt(4, 5), pt(3, 5)]);
    assert_eq!(s.len(), 4);
}

#[test]
fn occupies_checks_whole_body() {
    let s = Snake::new();
    assert!(s.occupies(pt(5, 5)));
    assert!(s.occupies(pt(3, 5)));
    assert!(!s.occupies(pt(6, 5)));
}

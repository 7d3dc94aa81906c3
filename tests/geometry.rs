use snake_core::geometry::{member, wrap_step, Direction, Point, HEIGHT, WIDTH};

fn pt(x: u16, y: u16) -> Point {
    Point { x, y }
}

#[test]
fn step_moves_one_cell() {
    assert_eq!(wrap_step(pt(5, 5), Direction::Up), pt(5, 4));
    assert_eq!(wrap_step(pt(5, 5), Direction::Down), pt(5, 6));
    assert_eq!(wrap_step(pt(5, 5), Direction::Left), pt(4, 5));
    assert_eq!(wrap_step(pt(5, 5), Direction::Right), pt(6, 5));
}

#[test]
fn step_wraps_at_edges() {
    assert_eq!(wrap_step(pt(WIDTH, 7), Direction::Right), pt(1, 7));
    assert_eq!(wrap_step(pt(1, 7), Direction::Left), pt(WIDTH, 7));
    assert_eq!(wrap_step(pt(9, 1), Direction::Up), pt(9, HEIGHT));
    assert_eq!(wrap_step(pt(9, HEIGHT), Direction::Down), pt(9, 1));
}

#[test]
fn step_back_returns_home() {
    let dirs = [Direction::Up, Direction::Down, Direction::Left, Direction::Right];
    for p in [pt(1, 1), pt(WIDTH, HEIGHT), pt(1, HEIGHT), pt(30, 10)] {
        for d in dirs {
            assert_eq!(wrap_step(wrap_step(p, d), d.opposite()), p);
        }
    }
}

#[test]
fn opposite_pairs() {
    assert_eq!(Direction::Up.opposite(), Direction::Down);
    assert_eq!(Direction::Down.opposite(), Direction::Up);
    assert_eq!(Direction::Left.opposite(), Direction::Right);
    assert_eq!(Direction::Right.opposite(), Direction::Left);
}

#[test]
fn distance_ignores_wrap() {
    assert_eq!(pt(1, 1).distance(&pt(4, 5)), 7);
    assert_eq!(pt(4, 5).distance(&pt(1, 1)), 7);
    assert_eq!(pt(1, 3).distance(&pt(WIDTH, 3)), 59);
    assert_eq!(pt(8, 8).distance(&pt(8, 8)), 0);
}

#[test]
fn successors_of_free_cell() {
    let r = pt(5, 5).successors(&vec![]);
    assert_eq!(r.len(), 8);
    for (q, c) in &r {
        assert_eq!(*c, 1);
        assert!(q.x.abs_diff(5) <= 1 && q.y.abs_diff(5) <= 1 && *q != pt(5, 5));
    }
    assert!(r.contains(&(pt(4, 4), 1)));
    assert!(r.contains(&(pt(6, 6), 1)));
    assert!(r.contains(&(pt(6, 4), 1)));
    assert!(r.contains(&(pt(4, 6), 1)));
}

#[test]
fn successors_skip_body_and_wrap() {
    let body = vec![pt(1, 1), pt(2, 1)];
    let r = pt(1, 1).successors(&body);
    assert_eq!(r.len(), 7);
    assert!(!r.iter().any(|(q, _)| *q == pt(2, 1)));
    assert!(r.contains(&(pt(WIDTH, HEIGHT), 1)));
    assert!(r.contains(&(pt(1, HEIGHT), 1)));
    assert!(r.contains(&(pt(WIDTH, 1), 1)));
    assert!(r.contains(&(pt(2, HEIGHT), 1)));
}

#[test]
fn member_finds_cells() {
    let cells = vec![pt(1, 2), pt(3, 4)];
    assert!(member(&cells, pt(3, 4)));
    assert!(!member(&cells, pt(4, 3)));
    assert!(!member(&vec![], pt(1, 1)));
}

#[test]
fn same_cell_compares_both_coordinates() {
    assert!(pt(2, 3).same_cell(&pt(2, 3)));
    assert!(!pt(2, 3).same_cell(&pt(3, 2)));
}

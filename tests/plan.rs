use snake_core::geometry::Point;
use snake_core::plan::plan;

fn pt(x: u16, y: u16) -> Point {
    Point { x, y }
}

fn is_neighbor(a: Point, b: Point) -> bool {
    let dx = a.x.abs_diff(b.x);
    let dy = a.y.abs_diff(b.y);
    a != b && (dx <= 1 || dx == 59) && (dy <= 1 || dy == 19)
}

fn check_route(path: &[Point], start: Point, goal: Point, blocked: &[Point]) {
    assert_eq!(path[0], start);
    assert_eq!(*path.last().unwrap(), goal);
    for w in path.windows(2) {
        assert!(is_neighbor(w[0], w[1]));
        assert!(!blocked.contains(&w[1]));
    }
}

#[test]
fn plan_blocked_goal_gives_none() {
    let blocked = vec![pt(5, 5), pt(9, 9)];
    assert_eq!(plan(pt(5, 5), pt(9, 9), &blocked), None);
}

#[test]
fn plan_finds_valid_route() {
    let blocked = vec![pt(5, 5), pt(4, 5), pt(3, 5)];
    let path = plan(pt(5, 5), pt(20, 12), &blocked).unwrap();
    check_route(&path, pt(5, 5), pt(20, 12), &blocked);
}

#[test]
fn plan_uses_diagonal_steps() {
    let path = plan(pt(5, 5), pt(7, 7), &vec![pt(5, 5)]).unwrap();
    assert_eq!(path, vec![pt(5, 5), pt(6, 6), pt(7, 7)]);
}

#[test]
fn plan_routes_around_a_wall() {
    let mut blocked = vec![pt(5, 5)];
    for y in 1..=20 {
        if y != 15 {
            blocked.push(pt(8, y));
        }
    }
    let path = plan(pt(5, 5), pt(11, 5), &blocked).unwrap();
    check_route(&path, pt(5, 5), pt(11, 5), &blocked);
    assert!(path.contains(&pt(8, 15)));
}

#[test]
fn plan_enclosed_goal_gives_none() {
    let blocked = vec![
        pt(12, 10), pt(11, 10), pt(11, 9), pt(10, 9), pt(9, 9),
        pt(9, 10), pt(9, 11), pt(10, 11), pt(11, 11),
    ];
    assert_eq!(plan(pt(12, 10), pt(10, 10), &blocked), None);
}

#[test]
fn plan_to_start_is_single_cell() {
    assert_eq!(plan(pt(3, 3), pt(3, 3), &vec![]), Some(vec![pt(3, 3)]));
}

//! Autopilot route planning: A* search over the wrapped 8-connected grid,
//! with the snake's body as obstacles.
use vstd::prelude::*;
use pathfinding::prelude::astar;
use crate::geometry::{Point, adjacent, in_bounds, member, lemma_neighbor_in_bounds, lemma_adjacent_symmetric};

verus! {

/// `path` leads from `start` to `goal` by single wrapped moves (diagonals
/// included), and enters no cell of `blocked`.
pub open spec fn is_route(path: Seq<Point>, start: Point, goal: Point, blocked: Seq<Point>) -> bool {
    &&& path.len() >= 1
    &&& path[0] == start
    &&& path.last() == goal
    &&& forall|i: int| 0 <= i < path.len() - 1 ==> adjacent(#[trigger] path[i], path[i + 1]) && !blocked.contains(path[i + 1])
}

/// Some route from `start` to `goal` avoids `blocked`.
pub open spec fn reachable(start: Point, goal: Point, blocked: Seq<Point>) -> bool {
    exists|path: Seq<Point>| is_route(path, start, goal, blocked)
}

/// Relies on pathfinding's `astar`: a path it returns starts at `start`, ends
/// at a node accepted by the goal test, and takes each step from the
/// successor function; it returns `None` only once every node reachable
/// through the successor function has been examined. Starting on the board
/// keeps every explored cell on the board, so the summed costs stay far
/// below `u32::MAX`.
#[verifier::external_body]
fn astar_route(start: Point, goal: Point, blocked: &Vec<Point>) -> (r: Option<Vec<Point>>)
    requires
        in_bounds(start),
    ensures
        match r {
            Some(path) => is_route(path@, start, goal, blocked@),
            None => !reachable(start, goal, blocked@),
        },
{
    astar(
        &start,
        |p: &Point| p.successors(blocked),
        |p: &Point| p.distance(&goal),
        |p: &Point| p.same_cell(&goal),
    ).map(|found| found.0)
}

/// Plans a route for the head at `start` to the food at `goal` around the
/// cells of `blocked`. The route includes both ends.
pub fn plan(start: Point, goal: Point, blocked: &Vec<Point>) -> (r: Option<Vec<Point>>)
    requires
        in_bounds(start),
    ensures
        blocked@.contains(goal) ==> r is None,
        !blocked@.contains(goal) ==> (r is Some <==> reachable(start, goal, blocked@)),
        r matches Some(path) ==> is_route(path@, start, goal, blocked@),
{
    if member(blocked, goal) {
        return None;
    }
    astar_route(start, goal, blocked)
}

/// Every cell of a route that starts on the board is on the board.
pub proof fn lemma_route_in_bounds(path: Seq<Point>, start: Point, goal: Point, blocked: Seq<Point>, i: int)
    requires
        is_route(path, start, goal, blocked),
        in_bounds(start),
        0 <= i < path.len(),
    ensures
        in_bounds(path[i]),
    decreases i,
{
    if i > 0 {
        lemma_route_in_bounds(path, start, goal, blocked, i - 1);
        assert(adjacent(path[i - 1], path[i]));
        lemma_neighbor_in_bounds(path[i - 1], path[i]);
    }
}

/// A goal whose neighbours are all blocked cannot be reached from a start
/// that is neither the goal nor next to it.
pub proof fn lemma_enclosed_unreachable(start: Point, goal: Point, blocked: Seq<Point>)
    requires
        in_bounds(start),
        in_bounds(goal),
        start != goal,
        !adjacent(start, goal),
        forall|q: Point| adjacent(goal, q) ==> blocked.contains(q),
    ensures
        !reachable(start, goal, blocked),
{
    assert forall|path: Seq<Point>| !is_route(path, start, goal, blocked) by {
        lemma_no_route_into_enclosure(path, start, goal, blocked);
    }
}

proof fn lemma_no_route_into_enclosure(path: Seq<Point>, start: Point, goal: Point, blocked: Seq<Point>)
    requires
        in_bounds(start),
        in_bounds(goal),
        start != goal,
        !adjacent(start, goal),
        forall|q: Point| adjacent(goal, q) ==> blocked.contains(q),
    ensures
        !is_route(path, start, goal, blocked),
{
    if is_route(path, start, goal, blocked) {
        assert(path.len() >= 2) by {
            if path.len() == 1 {
                assert(path[0] == path.last());
            }
        }
        let m = path.len() - 2;
        let before = path[m];
        assert(adjacent(before, goal)) by {
            assert(adjacent(path[m], path[m + 1]));
            assert(path[m + 1] == path.last());
        }
        if m > 0 {
            let j = m - 1;
            assert(0 <= j < path.len() - 1);
            let a = path[j];
            assert(adjacent(a, path[j + 1]));
            assert(!blocked.contains(path[j + 1]));
            assert(path[j + 1] == before);
            lemma_route_in_bounds(path, start, goal, blocked, m);
            lemma_adjacent_symmetric(before, goal);
        } else {
            assert(before == start);
        }
    }
}

} // verus!

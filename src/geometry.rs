//! The toroidal grid: coordinates, directions and single-cell moves.
use vstd::prelude::*;

verus! {

/// Number of columns of the board; columns are numbered `1..=WIDTH`.
pub const WIDTH: u16 = 60;

/// Number of rows of the board; rows are numbered `1..=HEIGHT`.
pub const HEIGHT: u16 = 20;

/// A cell of the board.
#[derive(Clone, Copy, Debug, PartialEq, Eq, Structural, Hash, PartialOrd, Ord)]
pub struct Point {
    pub x: u16,
    pub y: u16,
}

/// One of the four directions of movement.
#[derive(Clone, Copy, Debug, PartialEq, Eq, Structural)]
pub enum Direction {
    Up,
    Down,
    Left,
    Right,
}

pub open spec fn in_bounds(p: Point) -> bool {
    1 <= p.x <= WIDTH && 1 <= p.y <= HEIGHT
}

/// Column to the left, wrapping from the first column to the last.
pub open spec fn left_of(x: u16) -> u16 {
    if x > 1 { (x - 1) as u16 } else { WIDTH }
}

/// Column to the right, wrapping from the last column to the first.
pub open spec fn right_of(x: u16) -> u16 {
    if x < WIDTH { (x + 1) as u16 } else { 1 }
}

/// Row above, wrapping from the first row to the last.
pub open spec fn above(y: u16) -> u16 {
    if y > 1 { (y - 1) as u16 } else { HEIGHT }
}

/// Row below, wrapping from the last row to the first.
pub open spec fn below(y: u16) -> u16 {
    if y < HEIGHT { (y + 1) as u16 } else { 1 }
}

pub open spec fn opposite_spec(d: Direction) -> Direction {
    match d {
        Direction::Up => Direction::Down,
        Direction::Down => Direction::Up,
        Direction::Left => Direction::Right,
        Direction::Right => Direction::Left,
    }
}

/// The cell one move away from `p` in direction `d` on the torus.
pub open spec fn step_spec(p: Point, d: Direction) -> Point {
    match d {
        Direction::Up => Point { x: p.x, y: above(p.y) },
        Direction::Down => Point { x: p.x, y: below(p.y) },
        Direction::Left => Point { x: left_of(p.x), y: p.y },
        Direction::Right => Point { x: right_of(p.x), y: p.y },
    }
}

/// The eight wrapped neighbours of `p`: four orthogonal, then four diagonal.
#[verifier::opaque]
pub open spec fn neighbors(p: Point) -> Seq<Point> {
    seq![
        Point { x: p.x, y: above(p.y) },
        Point { x: p.x, y: below(p.y) },
        Point { x: left_of(p.x), y: p.y },
        Point { x: right_of(p.x), y: p.y },
        Point { x: left_of(p.x), y: above(p.y) },
        Point { x: right_of(p.x), y: above(p.y) },
        Point { x: left_of(p.x), y: below(p.y) },
        Point { x: right_of(p.x), y: below(p.y) },
    ]
}

/// `b` is one of the eight wrapped neighbours of `a`.
#[verifier::opaque]
pub open spec fn adjacent(a: Point, b: Point) -> bool {
    neighbors(a).contains(b)
}

pub open spec fn abs_diff(a: u16, b: u16) -> nat {
    if a >= b { (a - b) as nat } else { (b - a) as nat }
}

/// Manhattan distance that ignores wrap-around.
pub open spec fn manhattan(a: Point, b: Point) -> nat {
    abs_diff(a.x, b.x) + abs_diff(a.y, b.y)
}

impl Direction {
    pub fn opposite(self) -> (r: Direction)
        ensures
            r == opposite_spec(self),
    {
        match self {
            Direction::Up => Direction::Down,
            Direction::Down => Direction::Up,
            Direction::Left => Direction::Right,
            Direction::Right => Direction::Left,
        }
    }
}

fn left_col(x: u16) -> (r: u16)
    ensures
        r == left_of(x),
{
    if x > 1 { x - 1 } else { WIDTH }
}

fn right_col(x: u16) -> (r: u16)
    ensures
        r == right_of(x),
{
    if x < WIDTH { x + 1 } else { 1 }
}

fn row_above(y: u16) -> (r: u16)
    ensures
        r == above(y),
{
    if y > 1 { y - 1 } else { HEIGHT }
}

fn row_below(y: u16) -> (r: u16)
    ensures
        r == below(y),
{
    if y < HEIGHT { y + 1 } else { 1 }
}

/// Moves one cell from `p` in direction `d`, wrapping at the edges.
pub fn wrap_step(p: Point, d: Direction) -> (r: Point)
    ensures
        r == step_spec(p, d),
        in_bounds(p) ==> in_bounds(r),
{
    match d {
        Direction::Up => Point { x: p.x, y: row_above(p.y) },
        Direction::Down => Point { x: p.x, y: row_below(p.y) },
        Direction::Left => Point { x: left_col(p.x), y: p.y },
        Direction::Right => Point { x: right_col(p.x), y: p.y },
    }
}

/// Stepping back in the opposite direction returns to the starting cell.
pub proof fn lemma_step_back(p: Point, d: Direction)
    requires
        in_bounds(p),
    ensures
        step_spec(step_spec(p, d), opposite_spec(d)) == p,
{
}

/// Every neighbour of a cell on the board is on the board.
pub proof fn lemma_neighbor_in_bounds(p: Point, q: Point)
    requires
        in_bounds(p),
        adjacent(p, q),
    ensures
        in_bounds(q),
{
    reveal(adjacent);
    reveal(neighbors);
    let k = choose|k: int| 0 <= k < neighbors(p).len() && neighbors(p)[k] == q;
}

/// Adjacency on the board is symmetric.
pub proof fn lemma_adjacent_symmetric(p: Point, q: Point)
    requires
        in_bounds(p),
        in_bounds(q),
        adjacent(p, q),
    ensures
        adjacent(q, p),
{
    reveal(adjacent);
    reveal(neighbors);
    let k = choose|k: int| 0 <= k < neighbors(p).len() && neighbors(p)[k] == q;
    let n = neighbors(q);
    if k == 0 { assert(n[1] == p); }
    else if k == 1 { assert(n[0] == p); }
    else if k == 2 { assert(n[3] == p); }
    else if k == 3 { assert(n[2] == p); }
    else if k == 4 { assert(n[7] == p); }
    else if k == 5 { assert(n[6] == p); }
    else if k == 6 { assert(n[5] == p); }
    else { assert(n[4] == p); }
}

/// Whether `cells` holds `p`.
pub fn member(cells: &Vec<Point>, p: Point) -> (r: bool)
    ensures
        r == cells@.contains(p),
{
    let mut i: usize = 0;
    while i < cells.len()
        invariant
            0 <= i <= cells@.len(),
            forall|j: int| 0 <= j < i ==> cells@[j] != p,
        decreases cells@.len() - i,
    {
        if cells[i] == p {
            return true;
        }
        i += 1;
    }
    false
}

impl Point {
    /// Manhattan distance to `other`, without wrap-around.
    pub fn distance(&self, other: &Point) -> (r: u32)
        ensures
            r == manhattan(*self, *other),
    {
        let dx: u32 = if self.x >= other.x { (self.x - other.x) as u32 } else { (other.x - self.x) as u32 };
        let dy: u32 = if self.y >= other.y { (self.y - other.y) as u32 } else { (other.y - self.y) as u32 };
        dx + dy
    }

    /// Whether the cell lies on the board.
    pub fn on_board(&self) -> (r: bool)
        ensures
            r == in_bounds(*self),
    {
        1 <= self.x && self.x <= WIDTH && 1 <= self.y && self.y <= HEIGHT
    }

    /// Whether `self` and `other` are the same cell.
    pub fn same_cell(&self, other: &Point) -> (r: bool)
        ensures
            r == (*self == *other),
    {
        self.x == other.x && self.y == other.y
    }

    /// The eight wrapped neighbours of `self` that are not in `body`, each
    /// with move cost one.
    pub fn successors(&self, body: &Vec<Point>) -> (r: Vec<(Point, u32)>)
        ensures
            forall|i: int| 0 <= i < r@.len() ==> r@[i].1 == 1,
            forall|i: int| 0 <= i < r@.len() ==> adjacent(*self, #[trigger] r@[i].0) && !body@.contains(r@[i].0),
            forall|q: Point| adjacent(*self, q) && !body@.contains(q) ==> exists|i: int| 0 <= i < r@.len() && #[trigger] r@[i].0 == q,
    {
        let x = self.x;
        let y = self.y;
        let cands: Vec<Point> = vec![
            Point { x: x, y: row_above(y) },
            Point { x: x, y: row_below(y) },
            Point { x: left_col(x), y: y },
            Point { x: right_col(x), y: y },
            Point { x: left_col(x), y: row_above(y) },
            Point { x: right_col(x), y: row_above(y) },
            Point { x: left_col(x), y: row_below(y) },
            Point { x: right_col(x), y: row_below(y) },
        ];
        reveal(neighbors);
        assert(cands@ == neighbors(*self));
        reveal(adjacent);
        let mut out: Vec<(Point, u32)> = Vec::new();
        let mut i: usize = 0;
        while i < cands.len()
            invariant
                0 <= i <= cands@.len(),
                cands@ == neighbors(*self),
                forall|k: int| 0 <= k < out@.len() ==> out@[k].1 == 1,
                forall|k: int| 0 <= k < out@.len() ==> adjacent(*self, #[trigger] out@[k].0) && !body@.contains(out@[k].0),
                forall|j: int| 0 <= j < i && !body@.contains(cands@[j]) ==> exists|k: int| 0 <= k < out@.len() && #[trigger] out@[k].0 == cands@[j],
            decreases cands@.len() - i,
        {
            reveal(adjacent);
            let c = cands[i];
            let ghost before = out@;
            if !member(body, c) {
                out.push((c, 1));
                assert(out@[out@.len() - 1].0 == c);
                assert forall|j: int| 0 <= j < i && !body@.contains(cands@[j]) implies exists|k: int| 0 <= k < out@.len() && #[trigger] out@[k].0 == cands@[j] by {
                    let k = choose|k: int| 0 <= k < before.len() && #[trigger] before[k].0 == cands@[j];
                    assert(out@[k] == before[k]);
                }
            }
            i += 1;
        }
        proof {
            reveal(adjacent);
            assert forall|q: Point| adjacent(*self, q) && !body@.contains(q) implies exists|k: int| 0 <= k < out@.len() && #[trigger] out@[k].0 == q by {
                let j = choose|j: int| 0 <= j < cands@.len() && cands@[j] == q;
            }
        }
        out
    }
}

} // verus!

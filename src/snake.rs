//! The snake's body: an ordered list of cells, head first.
use vstd::prelude::*;
use crate::geometry::{Point, in_bounds, member};

verus! {

/// No cell occurs twice in `s`.
pub open spec fn distinct(s: Seq<Point>) -> bool {
    forall|i: int, j: int| 0 <= i < s.len() && 0 <= j < s.len() && i != j ==> s[i] != s[j]
}

/// Every cell of `s` lies on the board.
pub open spec fn all_in_bounds(s: Seq<Point>) -> bool {
    forall|i: int| 0 <= i < s.len() ==> in_bounds(#[trigger] s[i])
}

/// The body after moving its head to `h`: `h` is prepended and, unless the
/// snake grows, the tail cell is dropped.
pub open spec fn advanced(body: Seq<Point>, h: Point, grow: bool) -> Seq<Point> {
    if grow { seq![h] + body } else { (seq![h] + body).drop_last() }
}

pub struct Snake {
    pub body: Vec<Point>,
}

impl Snake {
    /// The cells of the snake at the start of a game.
    pub open spec fn new_spec() -> Seq<Point> {
        seq![Point { x: 5, y: 5 }, Point { x: 4, y: 5 }, Point { x: 3, y: 5 }]
    }

    /// A body that is not empty, lies on the board and has no repeated cell.
    pub open spec fn wf(&self) -> bool {
        self.body@.len() >= 1 && all_in_bounds(self.body@) && distinct(self.body@)
    }

    /// The snake at the start of a game: `(5,5)`, `(4,5)`, `(3,5)`.
    pub fn new() -> (r: Snake)
        ensures
            r.body@ == Snake::new_spec(),
            r.wf(),
    {
        Snake { body: vec![Point { x: 5, y: 5 }, Point { x: 4, y: 5 }, Point { x: 3, y: 5 }] }
    }

    /// Moves the head to `new_head`; the tail follows unless `ate_food`.
    pub fn advance(&mut self, new_head: Point, ate_food: bool)
        requires
            old(self).body@.len() >= 1,
        ensures
            final(self).body@ == advanced(old(self).body@, new_head, ate_food),
            ate_food ==> final(self).body@.len() == old(self).body@.len() + 1,
            !ate_food ==> final(self).body@.len() == old(self).body@.len(),
            old(self).wf() && in_bounds(new_head) && !old(self).body@.contains(new_head) ==> final(self).wf(),
    {
        self.body.insert(0, new_head);
        assert(self.body@ == seq![new_head] + old(self).body@);
        if !ate_food {
            self.body.pop();
        }
        proof {
            let s = self.body@;
            let o = old(self).body@;
            if old(self).wf() && in_bounds(new_head) && !o.contains(new_head) {
                assert forall|i: int| 0 <= i < s.len() implies in_bounds(#[trigger] s[i]) by {
                    if i > 0 {
                        assert(s[i] == o[i - 1]);
                    }
                }
                assert forall|i: int, j: int| 0 <= i < s.len() && 0 <= j < s.len() && i != j implies s[i] != s[j] by {
                    if i > 0 {
                        assert(s[i] == o[i - 1]);
                    }
                    if j > 0 {
                        assert(s[j] == o[j - 1]);
                    }
                }
            }
        }
    }

    /// Whether the body covers `p`.
    pub fn occupies(&self, p: Point) -> (r: bool)
        ensures
            r == self.body@.contains(p),
    {
        member(&self.body, p)
    }

    pub fn head(&self) -> (r: Point)
        requires
            self.body@.len() >= 1,
        ensures
            r == self.body@[0],
    {
        self.body[0]
    }

    pub fn len(&self) -> (r: usize)
        ensures
            r == self.body@.len(),
    {
        self.body.len()
    }
}

/// Growing adds one cell and a plain move keeps the length.
pub proof fn lemma_advance_length(body: Seq<Point>, h: Point, grow: bool)
    requires
        body.len() >= 1,
    ensures
        grow ==> advanced(body, h, grow).len() == body.len() + 1,
        !grow ==> advanced(body, h, grow).len() == body.len(),
        advanced(body, h, grow)[0] == h,
{
}

} // verus!

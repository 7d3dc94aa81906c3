//! The direction gate that refuses instant reversals.
use vstd::prelude::*;
use crate::geometry::{Direction, opposite_spec};

verus! {

/// The committed heading after requesting `req` while heading `cur`: a
/// request for the opposite heading is ignored.
pub open spec fn turned(cur: Direction, req: Direction) -> Direction {
    if req == opposite_spec(cur) { cur } else { req }
}

/// Holds the committed heading of the snake.
pub struct DirectionController {
    pub current: Direction,
}

impl DirectionController {
    pub fn new(d: Direction) -> (r: DirectionController)
        ensures
            r.current == d,
    {
        DirectionController { current: d }
    }

    /// Commits `req` unless it reverses the current heading.
    pub fn request(&mut self, req: Direction)
        ensures
            final(self).current == turned(old(self).current, req),
            final(self).current != opposite_spec(old(self).current),
    {
        if req != self.current.opposite() {
            self.current = req;
        }
    }

    pub fn current(&self) -> (r: Direction)
        ensures
            r == self.current,
    {
        self.current
    }
}

/// The headings committed, one after each request, starting from `cur`.
pub open spec fn committed(cur: Direction, reqs: Seq<Direction>) -> Seq<Direction>
    decreases reqs.len(),
{
    if reqs.len() == 0 {
        seq![cur]
    } else {
        committed(cur, reqs.drop_last()).push(turned(committed(cur, reqs.drop_last()).last(), reqs.last()))
    }
}

/// Over any sequence of requests, no committed heading is the opposite of
/// the one committed just before it.
pub proof fn lemma_never_reverses(cur: Direction, reqs: Seq<Direction>)
    ensures
        committed(cur, reqs).len() == reqs.len() + 1,
        forall|i: int| 0 <= i < reqs.len() ==> #[trigger] committed(cur, reqs)[i + 1] != opposite_spec(committed(cur, reqs)[i]),
    decreases reqs.len(),
{
    if reqs.len() > 0 {
        lemma_never_reverses(cur, reqs.drop_last());
        let prev = committed(cur, reqs.drop_last());
        assert forall|i: int| 0 <= i < reqs.len() implies #[trigger] committed(cur, reqs)[i + 1] != opposite_spec(committed(cur, reqs)[i]) by {
            if i + 1 < reqs.len() {
                assert(committed(cur, reqs)[i + 1] == prev[i + 1]);
                assert(committed(cur, reqs)[i] == prev[i]);
            }
        }
    }
}

} // verus!

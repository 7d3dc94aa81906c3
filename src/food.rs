//! Placement of food on a free cell of the play field.
use vstd::prelude::*;
use rand::Rng;
use crate::geometry::{Point, WIDTH, HEIGHT, member};

verus! {

/// Last column on which food may appear.
pub const FIELD_WIDTH: u16 = WIDTH - 2;

/// Last row on which food may appear.
pub const FIELD_HEIGHT: u16 = HEIGHT - 2;

/// Random draws tried before the field is scanned in order.
pub const SPAWN_TRIES: u32 = 4096;

/// `p` lies in the play field, inset from the border: `[1, W-2] x [1, H-2]`.
pub open spec fn in_field(p: Point) -> bool {
    1 <= p.x <= FIELD_WIDTH && 1 <= p.y <= FIELD_HEIGHT
}

/// Relies on rand's `thread_rng` and `Rng::gen_range` over an inclusive
/// range: the value drawn lies between the two bounds.
#[verifier::external_body]
fn random_between(lo: u16, hi: u16) -> (r: u16)
    requires
        lo <= hi,
    ensures
        lo <= r <= hi,
{
    rand::thread_rng().gen_range(lo..=hi)
}

/// A cell of the play field that `occupied` does not hold, drawn at random;
/// `None` only when `occupied` covers the whole field.
pub fn spawn(occupied: &Vec<Point>) -> (r: Option<Point>)
    ensures
        match r {
            Some(p) => in_field(p) && !occupied@.contains(p),
            None => forall|p: Point| in_field(p) ==> occupied@.contains(p),
        },
{
    let mut tries: u32 = 0;
    while tries < SPAWN_TRIES
        decreases SPAWN_TRIES - tries,
    {
        let p = Point { x: random_between(1, FIELD_WIDTH), y: random_between(1, FIELD_HEIGHT) };
        if !member(occupied, p) {
            return Some(p);
        }
        tries += 1;
    }
    first_free(occupied)
}

/// The first cell of the play field, row by row, that `occupied` does not hold.
fn first_free(occupied: &Vec<Point>) -> (r: Option<Point>)
    ensures
        match r {
            Some(p) => in_field(p) && !occupied@.contains(p),
            None => forall|p: Point| in_field(p) ==> occupied@.contains(p),
        },
{
    let mut y: u16 = 1;
    while y <= FIELD_HEIGHT
        invariant
            1 <= y <= FIELD_HEIGHT + 1,
            forall|p: Point| in_field(p) && p.y < y ==> occupied@.contains(p),
        decreases FIELD_HEIGHT + 1 - y,
    {
        let mut x: u16 = 1;
        while x <= FIELD_WIDTH
            invariant
                1 <= y <= FIELD_HEIGHT,
                1 <= x <= FIELD_WIDTH + 1,
                forall|p: Point| in_field(p) && p.y < y ==> occupied@.contains(p),
                forall|p: Point| in_field(p) && p.y == y && p.x < x ==> occupied@.contains(p),
            decreases FIELD_WIDTH + 1 - x,
        {
            let p = Point { x, y };
            if !member(occupied, p) {
                return Some(p);
            }
            x += 1;
        }
        y += 1;
    }
    None
}

} // verus!

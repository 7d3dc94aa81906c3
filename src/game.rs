//! One game session and its per-tick transition.
use vstd::prelude::*;
use crate::geometry::{Point, Direction, in_bounds, adjacent, step_spec, opposite_spec, wrap_step, lemma_neighbor_in_bounds};
use crate::control::{DirectionController, turned};
use crate::snake::{Snake, advanced};
use crate::food::{in_field, spawn};
use crate::plan::{plan, reachable, is_route};

verus! {

/// An input that reaches the game logic.
#[derive(Clone, Copy, Debug, PartialEq, Eq, Structural)]
pub enum Command {
    /// A request to head in the given direction (manual mode only).
    Turn(Direction),
    /// Switches between manual play and autopilot.
    ToggleAutopilot,
}

/// What a tick did.
#[derive(Clone, Copy, Debug, PartialEq, Eq, Structural)]
pub enum Event {
    /// The head moved to a free cell and the tail followed.
    Moved,
    /// The head moved onto the food and the snake grew by one cell.
    Grew,
    /// Autopilot found no route to the food: it was switched off and the
    /// snake stayed where it was.
    Held,
    /// The head would have entered the body: the game is over.
    Collided,
    /// The game was already over; nothing changed.
    Stopped,
}

pub struct Game {
    pub snake: Snake,
    pub food: Point,
    pub score: usize,
    pub controller: DirectionController,
    pub autopilot: bool,
    /// Set once the head runs into the body, or once no free cell is left
    /// for new food.
    pub over: bool,
}

/// Whether the snake is on autopilot once `cmd` is taken into account.
pub open spec fn mode_after(g: Game, cmd: Option<Command>) -> bool {
    if cmd == Some(Command::ToggleAutopilot) { !g.autopilot } else { g.autopilot }
}

/// The committed heading once `cmd` is taken into account; turns are only
/// heeded in manual mode.
pub open spec fn heading_after(g: Game, cmd: Option<Command>) -> Direction {
    match cmd {
        Some(Command::Turn(d)) => if mode_after(g, cmd) { g.controller.current } else { turned(g.controller.current, d) },
        _ => g.controller.current,
    }
}

/// The cell the head tries to enter in manual mode.
pub open spec fn manual_target(g: Game, cmd: Option<Command>) -> Point {
    step_spec(g.snake.body@[0], heading_after(g, cmd))
}

/// The game `n` is what `g` becomes when the head tries to enter `target`,
/// and `r` reports it.
pub open spec fn moved_to(g: Game, n: Game, target: Point, r: Event) -> bool {
    if g.snake.body@.contains(target) {
        &&& r == Event::Collided
        &&& n.over
        &&& n.snake.body@ == g.snake.body@
        &&& n.food == g.food
        &&& n.score == g.score
    } else if target == g.food {
        &&& r == Event::Grew
        &&& n.snake.body@ == advanced(g.snake.body@, target, true)
        &&& n.score == g.score + 1
        &&& (n.over <==> forall|p: Point| in_field(p) ==> n.snake.body@.contains(p))
        &&& !n.over ==> in_field(n.food) && !n.snake.body@.contains(n.food)
    } else {
        &&& r == Event::Moved
        &&& n.snake.body@ == advanced(g.snake.body@, target, false)
        &&& n.food == g.food
        &&& n.score == g.score
        &&& !n.over
    }
}

impl Game {
    /// The snake lies on the board without repeated cells, the score counts
    /// the cells grown since the start, and while the game runs the food is
    /// on a free cell.
    pub open spec fn wf(&self) -> bool {
        &&& self.snake.wf()
        &&& self.score + 3 == self.snake.body@.len()
        &&& in_bounds(self.food)
        &&& !self.over ==> !self.snake.body@.contains(self.food)
    }

    /// A new game with the starting snake heading right, in manual mode,
    /// with the food at `food`; `None` when `food` is off the board or under
    /// the snake.
    pub fn new(food: Point) -> (r: Option<Game>)
        ensures
            r is Some <==> in_bounds(food) && !Snake::new_spec().contains(food),
            r matches Some(g) ==> {
                &&& g.wf()
                &&& g.snake.body@ == Snake::new_spec()
                &&& g.food == food
                &&& g.score == 0
                &&& g.controller.current == Direction::Right
                &&& !g.autopilot
                &&& !g.over
            },
    {
        let snake = Snake::new();
        if !food.on_board() {
            return None;
        }
        if snake.occupies(food) {
            return None;
        }
        Some(Game {
            snake,
            food,
            score: 0,
            controller: DirectionController::new(Direction::Right),
            autopilot: false,
            over: false,
        })
    }

    /// A new game as `new` makes it, with the food on a random free cell of
    /// the play field.
    pub fn start() -> (r: Game)
        ensures
            r.wf(),
            r.snake.body@ == Snake::new_spec(),
            in_field(r.food),
            r.score == 0,
            r.controller.current == Direction::Right,
            !r.autopilot,
            !r.over,
    {
        let snake = Snake::new();
        let corner = Point { x: 1, y: 1 };
        assert(!snake.body@.contains(corner)) by {
            assert(forall|i: int| 0 <= i < 3 ==> snake.body@[i] != corner);
        }
        let food = match spawn(&snake.body) {
            Some(p) => p,
            None => corner,
        };
        Game {
            snake,
            food,
            score: 0,
            controller: DirectionController::new(Direction::Right),
            autopilot: false,
            over: false,
        }
    }

    /// Advances the game by one tick under the input `cmd`, if any.
    ///
    /// The toggle flips the mode first. On autopilot the head takes the
    /// second cell of a route to the food that avoids the body; with no such
    /// route autopilot is switched off and the snake holds still. In manual
    /// mode a turn passes through the direction gate and the head moves one
    /// cell along the committed heading. Entering a body cell ends the game;
    /// entering the food grows the snake, adds one to the score and places
    /// new food on a free cell.
    pub fn tick(&mut self, cmd: Option<Command>) -> (r: Event)
        requires
            old(self).wf(),
        ensures
            final(self).wf(),
            old(self).score <= final(self).score,
            old(self).snake.body@.len() <= final(self).snake.body@.len(),
            old(self).over ==> {
                &&& r == Event::Stopped
                &&& final(self).snake.body@ == old(self).snake.body@
                &&& final(self).food == old(self).food
                &&& final(self).score == old(self).score
                &&& final(self).over
            },
            !old(self).over && !mode_after(*old(self), cmd) ==> {
                &&& !final(self).autopilot
                &&& final(self).controller.current == heading_after(*old(self), cmd)
                &&& moved_to(*old(self), *final(self), manual_target(*old(self), cmd), r)
            },
            !old(self).over && mode_after(*old(self), cmd)
                && !reachable(old(self).snake.body@[0], old(self).food, old(self).snake.body@) ==> {
                &&& r == Event::Held
                &&& !final(self).autopilot
                &&& !final(self).over
                &&& final(self).controller == old(self).controller
                &&& final(self).snake.body@ == old(self).snake.body@
                &&& final(self).food == old(self).food
                &&& final(self).score == old(self).score
            },
            !old(self).over && mode_after(*old(self), cmd)
                && reachable(old(self).snake.body@[0], old(self).food, old(self).snake.body@) ==> {
                &&& final(self).autopilot
                &&& final(self).controller == old(self).controller
                &&& exists|t: Point| {
                    &&& adjacent(old(self).snake.body@[0], t)
                    &&& !old(self).snake.body@.contains(t)
                    &&& reachable(t, old(self).food, old(self).snake.body@)
                    &&& moved_to(*old(self), *final(self), t, r)
                }
            },
    {
        if self.over {
            return Event::Stopped;
        }
        if let Some(Command::ToggleAutopilot) = cmd {
            self.autopilot = !self.autopilot;
        }
        let head = self.snake.head();
        if self.autopilot {
            match plan(head, self.food, &self.snake.body) {
                Some(path) => {
                    let ghost body = self.snake.body@;
                    let ghost food = self.food;
                    assert(path@.len() >= 2) by {
                        assert(body.contains(head));
                    }
                    let target = path[1];
                    proof {
                        let rest = path@.subrange(1, path@.len() as int);
                        assert(is_route(rest, target, food, body)) by {
                            assert forall|i: int| 0 <= i < rest.len() - 1 implies adjacent(#[trigger] rest[i], rest[i + 1]) && !body.contains(rest[i + 1]) by {
                                assert(rest[i] == path@[i + 1]);
                                assert(adjacent(path@[i + 1], path@[i + 2]));
                            }
                        }
                        assert(adjacent(path@[0], path@[1]));
                        lemma_neighbor_in_bounds(head, target);
                    }
                    self.move_head(target)
                },
                None => {
                    self.autopilot = false;
                    Event::Held
                },
            }
        } else {
            if let Some(Command::Turn(d)) = cmd {
                self.controller.request(d);
            }
            let target = wrap_step(head, self.controller.current());
            self.move_head(target)
        }
    }

    /// Moves the head to `target` if it is free, growing onto food and
    /// placing new food when it is eaten.
    fn move_head(&mut self, target: Point) -> (r: Event)
        requires
            old(self).wf(),
            !old(self).over,
            in_bounds(target),
        ensures
            final(self).wf(),
            moved_to(*old(self), *final(self), target, r),
            final(self).controller == old(self).controller,
            final(self).autopilot == old(self).autopilot,
    {
        if self.snake.occupies(target) {
            self.over = true;
            return Event::Collided;
        }
        if target == self.food {
            self.snake.advance(target, true);
            let grown: usize = self.snake.len();
            assert(self.score + 4 == grown);
            self.score = self.score + 1;
            match spawn(&self.snake.body) {
                Some(p) => {
                    self.food = p;
                    // `p` itself is a free cell of the field.
                    assert(in_field(p) && !self.snake.body@.contains(p));
                },
                None => {
                    self.over = true;
                },
            }
            Event::Grew
        } else {
            self.snake.advance(target, false);
            proof {
                let o = old(self).snake.body@;
                let s = self.snake.body@;
                assert forall|i: int| 0 <= i < s.len() implies s[i] != self.food by {
                    if i > 0 {
                        assert(s[i] == o[i - 1]);
                    }
                }
            }
            Event::Moved
        }
    }
}

/// In manual mode a request to reverse is ignored: the head moves exactly as
/// with no input, and never back onto the cell behind it.
pub proof fn lemma_reversal_ignored(g: Game)
    requires
        g.wf(),
        !g.autopilot,
    ensures
        heading_after(g, Some(Command::Turn(opposite_spec(g.controller.current)))) == g.controller.current,
        manual_target(g, Some(Command::Turn(opposite_spec(g.controller.current)))) == manual_target(g, None),
        manual_target(g, Some(Command::Turn(opposite_spec(g.controller.current))))
            != step_spec(g.snake.body@[0], opposite_spec(g.controller.current)),
{
    assert(in_bounds(g.snake.body@[0]));
}

} // verus!

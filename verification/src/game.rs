//! Per-frame orchestration: input priority, the eat check, the loss check
//! with its reset, and the movement step, in the order the game applies
//! them.

use vstd::prelude::*;
use crate::{ROTATION_PER_SEC, INIT_SPEED, MAX_DT, SNAKE_CAP, POS_MAX};
use crate::num::{iabs, wrap_spec, dir_spec};
use crate::geom::{Vec2i, pos2};
use crate::snake::{
    Unit, Head, Snake, Fruit, pos_of, follow_chain_spec, can_eat_spec, lose_spec,
    grown_units_spec, move_amount_spec, angle_from_spec,
};

verus! {

/// The rotation rate selected by the held keys: right wins over left when
/// both are held; neither key means no rotation.
pub open spec fn rot_input_spec(left: bool, right: bool) -> int {
    if right {
        -(ROTATION_PER_SEC as int)
    } else if left {
        ROTATION_PER_SEC as int
    } else {
        0
    }
}

/// The head a fresh snake starts with.
pub open spec fn initial_head_spec() -> Head {
    Head {
        unit: Unit { position: Vec2i { x: 0, y: 0 } },
        heading: 0,
        speed: INIT_SPEED,
    }
}

/// What one frame does to the whole game state, step by step: select the
/// rotation from the keys, grow if the head overlaps the fruit, reset the
/// snake if the grown snake is in a losing position, then steer and move.
/// The fruit is replaced by a fresh field position whenever the frame eats
/// or resets, and kept as it is otherwise.
pub open spec fn frame_rel(g0: Game, g1: Game, dt: int, left: bool, right: bool) -> bool {
    let rot: int = rot_input_spec(left, right);
    let ate: bool = can_eat_spec(g0.snake.head.unit.position, g0.fruit.position);
    let u1: Seq<Unit> = if ate {
        grown_units_spec(g0.snake.head, g0.snake.units@)
    } else {
        g0.snake.units@
    };
    let lost: bool = lose_spec(g0.snake.head.unit.position, u1);
    let head_pre: Head = if lost { initial_head_spec() } else { g0.snake.head };
    let u2: Seq<Unit> = if lost { Seq::empty() } else { u1 };
    let heading1: int = wrap_spec(head_pre.heading + angle_from_spec(rot, dt));
    let newx: int = head_pre.unit.position.x
        + move_amount_spec(head_pre.speed as int, dt, dir_spec(heading1).0);
    let newy: int = head_pre.unit.position.y
        + move_amount_spec(head_pre.speed as int, dt, dir_spec(heading1).1);
    &&& g1.snake.head.speed == head_pre.speed
    &&& g1.snake.head.heading == heading1
    &&& g1.snake.head.unit.position.x == newx
    &&& g1.snake.head.unit.position.y == newy
    &&& g1.snake.units@.len() == u2.len()
    &&& (forall|j: int|
        0 <= j < u2.len() ==> pos_of(g1.snake.units@[j]) == follow_chain_spec(
            (newx, newy),
            u2,
        )[j])
    &&& ((ate || lost) ==> g1.fruit.wf())
    &&& (!(ate || lost) ==> g1.fruit == g0.fruit)
}

/// The whole game state: the snake and the current fruit.
pub struct Game {
    pub snake: Snake,
    pub fruit: Fruit,
}

impl Game {
    pub open spec fn wf(self) -> bool {
        self.snake.wf() && self.fruit.wf()
    }

    /// A fresh game: an initial snake and a randomly placed fruit.
    pub fn new() -> (g: Game)
        ensures
            g.wf(),
            g.snake.head == initial_head_spec(),
            g.snake.units@.len() == 0,
            g.fruit.wf(),
    {
        Game { snake: Snake::default(), fruit: Fruit::respawn() }
    }

    /// One frame of the simulation, in this fixed order: the eat check
    /// (grow and respawn the fruit), then the loss check (reset everything),
    /// then the movement step with the selected rotation.
    pub fn frame(&mut self, dt: i64, left: bool, right: bool)
        requires
            old(self).wf(),
            old(self).snake.units@.len() < SNAKE_CAP,
            0 <= dt <= MAX_DT,
        ensures
            final(self).wf(),
            final(self).snake.units@.len() <= old(self).snake.units@.len() + 1,
            frame_rel(*old(self), *final(self), dt as int, left, right),
            // growth happens exactly once per eating frame, and a losing
            // frame ends with an empty body whatever else happened
            ({
                let ate = can_eat_spec(
                    old(self).snake.head.unit.position,
                    old(self).fruit.position,
                );
                let u1 = if ate {
                    grown_units_spec(old(self).snake.head, old(self).snake.units@)
                } else {
                    old(self).snake.units@
                };
                let lost = lose_spec(old(self).snake.head.unit.position, u1);
                final(self).snake.units@.len() == if lost {
                    0int
                } else {
                    u1.len() as int
                }
            }),
    {
        let ghost g0: Game = *old(self);
        let rot: i64 = if right {
            -ROTATION_PER_SEC
        } else if left {
            ROTATION_PER_SEC
        } else {
            0
        };
        let ate: bool = self.snake.can_eat(&self.fruit);
        if ate {
            self.fruit = Fruit::respawn();
            self.snake.add_unit();
        }
        proof {
            assert(self.snake.units@ == if ate {
                grown_units_spec(g0.snake.head, g0.snake.units@)
            } else {
                g0.snake.units@
            });
        }
        let lost: bool = self.snake.is_lose();
        if lost {
            self.snake = Snake::default();
            self.fruit = Fruit::respawn();
            proof {
                assert(self.snake.units@ =~= Seq::<Unit>::empty());
            }
        }
        let ghost u2: Seq<Unit> = self.snake.units@;
        let ghost head_pre: Head = self.snake.head;
        proof {
            assert(lost ==> self.snake.head == initial_head_spec());
            assert(iabs(self.snake.head.unit.position.x as int) <= POS_MAX);
            assert(iabs(self.snake.head.unit.position.y as int) <= POS_MAX);
        }
        self.snake.go(dt, rot);
        proof {
            let newp: (int, int) = pos2(self.snake.head.unit.position);
            assert(forall|j: int|
                0 <= j < u2.len() ==> pos_of(self.snake.units@[j]) == follow_chain_spec(
                    newp,
                    u2,
                )[j]);
        }
    }
}

} // verus!

//! The simulation bodies: body units, fruit, the steered head, and the
//! snake that chains them together.

use vstd::prelude::*;
use vstd::arithmetic::div_mod::lemma_fundamental_div_mod;
use crate::{
    ONE, UNIT_RADIUS, FRUIT_RADIUS, INIT_SPEED, PI_FX,
    MAX_PLAY_COORD, BODY_LOSS_RADIUS, MAX_SPEED, MAX_DT, POS_MAX, SNAKE_CAP,
};
use crate::num::{iabs, wrap_spec, wrap_add, dir_spec, dir_of};
use crate::geom::{Vec2i, pos2, in_bounds_spec, dist_sq_spec, dist_sq, follow_step_pp, follow_toward};

verus! {

/// One circular body element.
#[derive(Clone, Copy, PartialEq, Eq, Structural, Debug)]
pub struct Unit {
    pub position: Vec2i,
}

/// The unit's position as a pair of mathematical integers.
pub open spec fn pos_of(u: Unit) -> (int, int) {
    pos2(u.position)
}

impl Unit {
    pub open spec fn wf(self) -> bool {
        in_bounds_spec(self.position)
    }

    /// Follow step: move just far enough toward the leading position to be
    /// within `FOLLOW_DIST` of it; do nothing if already that close.
    pub fn go(&mut self, prev_unit_pos: Vec2i)
        requires
            old(self).wf(),
            in_bounds_spec(prev_unit_pos),
        ensures
            pos_of(*final(self)) == follow_step_pp(pos_of(*old(self)), pos2(prev_unit_pos)),
            final(self).wf(),
            (old(self).position.x <= prev_unit_pos.x
                ==> old(self).position.x <= final(self).position.x <= prev_unit_pos.x),
            (prev_unit_pos.x <= old(self).position.x
                ==> prev_unit_pos.x <= final(self).position.x <= old(self).position.x),
            (old(self).position.y <= prev_unit_pos.y
                ==> old(self).position.y <= final(self).position.y <= prev_unit_pos.y),
            (prev_unit_pos.y <= old(self).position.y
                ==> prev_unit_pos.y <= final(self).position.y <= old(self).position.y),
    {
        self.position = follow_toward(self.position, prev_unit_pos);
    }

    /// Circle overlap test against a circle of the given radius: true iff
    /// the distance between the centers is strictly below the radius sum.
    pub fn intersect(&self, position: Vec2i, radius: i64) -> (r: bool)
        requires
            self.wf(),
            in_bounds_spec(position),
            0 <= radius <= ONE,
        ensures
            r == (dist_sq_spec(self.position, position)
                < (radius + UNIT_RADIUS) * (radius + UNIT_RADIUS)),
    {
        proof {
            assert((radius + UNIT_RADIUS) * (radius + UNIT_RADIUS) <= 2_000_000_000_000)
                by (nonlinear_arith)
                requires
                    0 <= radius + UNIT_RADIUS <= 1_040_000,
            ;
            assert((radius + UNIT_RADIUS) * (radius + UNIT_RADIUS) >= 0) by (nonlinear_arith);
        }
        dist_sq(self.position, position) < (radius + UNIT_RADIUS) * (radius + UNIT_RADIUS)
    }
}

/// A coordinate drawn at random, mapped into `[-ONE, ONE]`.
pub open spec fn coord_from_draw_spec(r: int) -> int {
    (2 * ONE) * r / 4_294_967_296 - ONE
}

/// The consumable target.
#[derive(Clone, Copy, PartialEq, Eq, Structural, Debug)]
pub struct Fruit {
    pub position: Vec2i,
}

/// Relies on macroquad::rand::rand: one draw from macroquad's global
/// pseudo-random generator. Nothing is assumed of the value drawn.
#[verifier::external_body]
fn rand_u32() -> u32 {
    macroquad::rand::rand()
}

impl Fruit {
    /// A fruit lies somewhere in the field square: each coordinate comes
    /// from a unit draw in `[0, 1)`, so the upper edge stays excluded.
    pub open spec fn wf(self) -> bool {
        &&& -ONE <= self.position.x < ONE
        &&& -ONE <= self.position.y < ONE
    }

    /// Places a fruit from two random draws, one per coordinate, each
    /// mapped uniformly into the field's coordinate range `[-ONE, ONE)`:
    /// the draw is a fraction of `2^32`, scaled to the field and shifted.
    pub fn from_draws(r1: u32, r2: u32) -> (f: Fruit)
        ensures
            pos2(f.position) == (coord_from_draw_spec(r1 as int), coord_from_draw_spec(r2 as int)),
            f.wf(),
    {
        proof {
            crate::geom::lemma_div_scale_bounds(2 * ONE, r1 as int, 4_294_967_296);
            crate::geom::lemma_div_scale_bounds(2 * ONE, r2 as int, 4_294_967_296);
            lemma_fundamental_div_mod((2 * ONE) * (r1 as int), 4_294_967_296);
            lemma_fundamental_div_mod((2 * ONE) * (r2 as int), 4_294_967_296);
        }
        let x: i64 = (2 * ONE) * (r1 as i64) / 4_294_967_296 - ONE;
        let y: i64 = (2 * ONE) * (r2 as i64) / 4_294_967_296 - ONE;
        Fruit { position: Vec2i { x, y } }
    }

    /// A fruit at a fresh random position within the field: some pair of
    /// draws, mapped as `from_draws` maps them.
    pub fn respawn() -> (f: Fruit)
        ensures
            f.wf(),
            exists|r1: u32, r2: u32|
                pos2(f.position) == (
                    coord_from_draw_spec(r1 as int),
                    coord_from_draw_spec(r2 as int),
                ),
    {
        let r1: u32 = rand_u32();
        let r2: u32 = rand_u32();
        Fruit::from_draws(r1, r2)
    }
}

/// The leading unit: carries a heading and a speed of its own.
#[derive(Clone, Copy, PartialEq, Eq, Structural, Debug)]
pub struct Head {
    pub unit: Unit,
    pub heading: i64,
    pub speed: i64,
}

/// How far one movement step shifts one coordinate: the distance travelled
/// (`speed * dt`, in micro-units) scaled by that coordinate of the unit
/// direction vector.
pub open spec fn move_amount_spec(speed: int, dt: int, comp: int) -> int {
    let q: int = speed * dt / (ONE as int);
    if comp >= 0 {
        q * comp / (ONE as int)
    } else {
        -(q * (-comp) / (ONE as int))
    }
}

impl Head {
    pub open spec fn wf(self) -> bool {
        &&& self.unit.wf()
        &&& -PI_FX <= self.heading <= PI_FX
        &&& 0 < self.speed <= MAX_SPEED
    }

    /// Turns the head by `angle` micro-radians (positive is
    /// counter-clockwise). Any angle is accepted; the bound only keeps the
    /// sum with the current heading inside `i64`.
    pub fn rotate(&mut self, angle: i64)
        requires
            old(self).wf(),
            -9_000_000_000_000_000_000 <= angle <= 9_000_000_000_000_000_000,
        ensures
            final(self).heading == wrap_spec(old(self).heading + angle),
            final(self).unit == old(self).unit,
            final(self).speed == old(self).speed,
            final(self).wf(),
    {
        self.heading = wrap_add(self.heading, angle);
    }

    /// The unit direction vector the head is facing, in fixed point.
    pub fn direction(&self) -> (d: Vec2i)
        requires
            self.wf(),
        ensures
            pos2(d) == dir_spec(self.heading as int),
            iabs(d.x as int) <= ONE,
            iabs(d.y as int) <= ONE,
            d.x * d.x + d.y * d.y <= ONE * ONE,
            d.x * d.x + d.y * d.y > ONE * ONE - 2 * ONE - 1,
    {
        let d: (i64, i64) = dir_of(self.heading);
        Vec2i { x: d.0, y: d.1 }
    }

    /// Advances the position by `speed * dt` along the current direction.
    pub fn go(&mut self, dt: i64)
        requires
            old(self).wf(),
            0 <= dt <= MAX_DT,
            iabs(old(self).unit.position.x as int) <= POS_MAX,
            iabs(old(self).unit.position.y as int) <= POS_MAX,
        ensures
            final(self).heading == old(self).heading,
            final(self).speed == old(self).speed,
            final(self).unit.position.x == old(self).unit.position.x
                + move_amount_spec(old(self).speed as int, dt as int,
                    dir_spec(old(self).heading as int).0),
            final(self).unit.position.y == old(self).unit.position.y
                + move_amount_spec(old(self).speed as int, dt as int,
                    dir_spec(old(self).heading as int).1),
            iabs(final(self).unit.position.x as int) <= POS_MAX + 4 * ONE,
            iabs(final(self).unit.position.y as int) <= POS_MAX + 4 * ONE,
            final(self).wf(),
    {
        let d: Vec2i = self.direction();
        proof {
            assert(self.speed * dt >= 0 && self.speed * dt <= 4_000_000_000_000)
                by (nonlinear_arith)
                requires
                    0 <= self.speed <= 2_000_000,
                    0 <= dt <= 2_000_000,
            ;
            lemma_fundamental_div_mod(self.speed * dt, ONE as int);
        }
        let q: i64 = self.speed * dt / ONE;
        let axc: i64 = if d.x >= 0 { d.x } else { -d.x };
        let ayc: i64 = if d.y >= 0 { d.y } else { -d.y };
        proof {
            crate::geom::lemma_div_scale_bounds(q as int, axc as int, ONE as int);
            crate::geom::lemma_div_scale_bounds(q as int, ayc as int, ONE as int);
        }
        let px: i64 = q * axc / ONE;
        let py: i64 = q * ayc / ONE;
        let mvx: i64 = if d.x >= 0 { px } else { -px };
        let mvy: i64 = if d.y >= 0 { py } else { -py };
        self.unit.position = Vec2i { x: self.unit.position.x + mvx, y: self.unit.position.y + mvy };
    }

    /// The head's position.
    pub fn position(&self) -> (p: Vec2i)
        ensures
            p == self.unit.position,
    {
        self.unit.position
    }

    /// Circle overlap test of the head against the given circle.
    pub fn intersect(&self, position: Vec2i, radius: i64) -> (r: bool)
        requires
            self.wf(),
            in_bounds_spec(position),
            0 <= radius <= ONE,
        ensures
            r == (dist_sq_spec(self.unit.position, position)
                < (radius + UNIT_RADIUS) * (radius + UNIT_RADIUS)),
    {
        self.unit.intersect(position, radius)
    }
}

/// Every unit of the sequence is in range.
pub open spec fn units_wf(s: Seq<Unit>) -> bool {
    forall|i: int| 0 <= i < s.len() ==> s[i].wf()
}

/// The positions of a body chain after one follow pass: the first unit
/// follows the lead position, and each later unit follows the unit ahead
/// of it at its already-updated position.
pub open spec fn follow_chain_spec(lead: (int, int), s: Seq<Unit>) -> Seq<(int, int)>
    decreases s.len(),
{
    if s.len() == 0 {
        Seq::empty()
    } else {
        let first: (int, int) = follow_step_pp(pos_of(s[0]), lead);
        seq![first] + follow_chain_spec(first, s.skip(1))
    }
}

pub proof fn lemma_follow_chain_len(lead: (int, int), s: Seq<Unit>)
    ensures
        follow_chain_spec(lead, s).len() == s.len(),
    decreases s.len(),
{
    if s.len() > 0 {
        lemma_follow_chain_len(follow_step_pp(pos_of(s[0]), lead), s.skip(1));
    }
}

/// Each entry of the chain is the follow step of the matching old unit
/// toward its leader's updated position.
pub proof fn lemma_follow_chain_index(lead: (int, int), s: Seq<Unit>, i: int)
    requires
        0 <= i < s.len(),
    ensures
        follow_chain_spec(lead, s).len() == s.len(),
        follow_chain_spec(lead, s)[i] == follow_step_pp(
            pos_of(s[i]),
            if i == 0 { lead } else { follow_chain_spec(lead, s)[i - 1] },
        ),
    decreases s.len(),
{
    lemma_follow_chain_len(lead, s);
    let first: (int, int) = follow_step_pp(pos_of(s[0]), lead);
    lemma_follow_chain_len(first, s.skip(1));
    if i > 0 {
        lemma_follow_chain_index(first, s.skip(1), i - 1);
        assert(s.skip(1)[i - 1] == s[i]);
        if i > 1 {
            assert(s.skip(1)[i - 2] == s[i - 1]);
        }
    }
}

/// The player's snake: a head and the chain of body units behind it.
pub struct Snake {
    pub head: Head,
    pub units: Vec<Unit>,
}

/// True iff the head overlaps the body unit at index `j` under the
/// tightened self-collision radius.
pub open spec fn body_hit_at(head: Vec2i, units: Seq<Unit>, j: int) -> bool {
    dist_sq_spec(head, units[j].position)
        < (BODY_LOSS_RADIUS + UNIT_RADIUS) * (BODY_LOSS_RADIUS + UNIT_RADIUS)
}

/// True iff the head overlaps any body unit other than the neck (index 0).
pub open spec fn hits_body_spec(head: Vec2i, units: Seq<Unit>) -> bool {
    exists|j: int| 1 <= j < units.len() && body_hit_at(head, units, j)
}

/// True iff the head has left the playable part of the field on some axis.
pub open spec fn hits_wall_spec(head: Vec2i) -> bool {
    iabs(head.x as int) > MAX_PLAY_COORD || iabs(head.y as int) > MAX_PLAY_COORD
}

/// The loss condition: self-collision past the neck, or a wall hit.
pub open spec fn lose_spec(head: Vec2i, units: Seq<Unit>) -> bool {
    hits_body_spec(head, units) || hits_wall_spec(head)
}

/// Overlap of the head with a fruit.
pub open spec fn can_eat_spec(head: Vec2i, fruit: Vec2i) -> bool {
    dist_sq_spec(head, fruit) < (FRUIT_RADIUS + UNIT_RADIUS) * (FRUIT_RADIUS + UNIT_RADIUS)
}

/// Eat boundary law: the head can eat exactly when the squared distance of
/// the centers is strictly below the squared radius sum; at the boundary or
/// beyond it, eating is impossible.
pub proof fn lemma_eat_boundary(head: Vec2i, fruit: Vec2i)
    ensures
        dist_sq_spec(head, fruit) >= (FRUIT_RADIUS + UNIT_RADIUS) * (FRUIT_RADIUS + UNIT_RADIUS)
            ==> !can_eat_spec(head, fruit),
        dist_sq_spec(head, fruit) < (FRUIT_RADIUS + UNIT_RADIUS) * (FRUIT_RADIUS + UNIT_RADIUS)
            ==> can_eat_spec(head, fruit),
{
}

/// Self-collision law: the neck (index 0) never contributes to a loss, no
/// matter how close it stands to the head; any body unit at index 1 or
/// later that overlaps the head under the tightened radius forces one.
pub proof fn lemma_self_collision(head: Vec2i, units: Seq<Unit>, j: int)
    ensures
        units.len() <= 1 && !hits_wall_spec(head) ==> !lose_spec(head, units),
        1 <= j < units.len() && body_hit_at(head, units, j) ==> lose_spec(head, units),
{
}

/// Wall law: the head's own position decides the wall loss; crossing the
/// playable half-extent on either axis loses, staying within it on both
/// axes cannot lose by the wall.
pub proof fn lemma_wall_boundary(head: Vec2i, units: Seq<Unit>)
    ensures
        hits_wall_spec(head) <==> (iabs(head.x as int) > MAX_PLAY_COORD
            || iabs(head.y as int) > MAX_PLAY_COORD),
        hits_wall_spec(head) ==> lose_spec(head, units),
{
}

impl Snake {
    pub open spec fn wf(self) -> bool {
        &&& self.head.wf()
        &&& units_wf(self.units@)
        &&& self.units@.len() <= SNAKE_CAP
    }

    /// One movement frame: steer the head by `rotation * dt`, advance it by
    /// `dt`, then pull each body unit after its leader in chain order.
    pub fn go(&mut self, dt: i64, rotation: i64)
        requires
            old(self).wf(),
            0 <= dt <= MAX_DT,
            -PI_FX <= rotation <= PI_FX,
            iabs(old(self).head.unit.position.x as int) <= POS_MAX,
            iabs(old(self).head.unit.position.y as int) <= POS_MAX,
        ensures
            final(self).wf(),
            final(self).head.speed == old(self).head.speed,
            final(self).head.heading == wrap_spec(
                old(self).head.heading + angle_from_spec(rotation as int, dt as int)),
            final(self).head.unit.position.x == old(self).head.unit.position.x
                + move_amount_spec(old(self).head.speed as int, dt as int,
                    dir_spec(final(self).head.heading as int).0),
            final(self).head.unit.position.y == old(self).head.unit.position.y
                + move_amount_spec(old(self).head.speed as int, dt as int,
                    dir_spec(final(self).head.heading as int).1),
            iabs(final(self).head.unit.position.x as int) <= POS_MAX + 4 * ONE,
            iabs(final(self).head.unit.position.y as int) <= POS_MAX + 4 * ONE,
            final(self).units@.len() == old(self).units@.len(),
            forall|j: int| 0 <= j < old(self).units@.len()
                ==> pos_of(final(self).units@[j]) == follow_chain_spec(
                    pos2(final(self).head.unit.position), old(self).units@)[j],
    {
        let ghost orig: Seq<Unit> = self.units@;
        let angle: i64 = if rotation >= 0 {
            proof {
                assert(rotation * dt >= 0 && rotation * dt <= 3_141_593 * 2_000_000)
                    by (nonlinear_arith)
                    requires
                        0 <= rotation <= 3_141_593,
                        0 <= dt <= 2_000_000,
                ;
                lemma_fundamental_div_mod(rotation * dt, ONE as int);
            }
            rotation * dt / ONE
        } else {
            proof {
                assert((-rotation) * dt >= 0 && (-rotation) * dt <= 3_141_593 * 2_000_000)
                    by (nonlinear_arith)
                    requires
                        0 <= -rotation <= 3_141_593,
                        0 <= dt <= 2_000_000,
                ;
                lemma_fundamental_div_mod((-rotation) * dt, ONE as int);
            }
            -((-rotation) * dt / ONE)
        };
        self.head.rotate(angle);
        self.head.go(dt);
        let ghost head1: Head = self.head;
        let lead0: Vec2i = self.head.position();
        let ghost chain: Seq<(int, int)> = follow_chain_spec(pos2(lead0), orig);
        proof {
            lemma_follow_chain_len(pos2(lead0), orig);
        }
        let mut prev_pos: Vec2i = lead0;
        let mut i: usize = 0;
        while i < self.units.len()
            invariant
                0 <= i <= orig.len(),
                self.units@.len() == orig.len(),
                orig.len() <= SNAKE_CAP,
                units_wf(orig),
                self.head == head1,
                in_bounds_spec(lead0),
                in_bounds_spec(prev_pos),
                chain == follow_chain_spec(pos2(lead0), orig),
                chain.len() == orig.len(),
                pos2(prev_pos) == if i == 0 { pos2(lead0) } else { chain[i - 1] },
                forall|j: int| i <= j < orig.len() ==> self.units@[j] == orig[j],
                forall|j: int| 0 <= j < i ==> pos_of(self.units@[j]) == chain[j],
                forall|j: int| 0 <= j < i ==> self.units@[j].wf(),
            decreases orig.len() - i,
        {
            proof {
                lemma_follow_chain_index(pos2(lead0), orig, i as int);
            }
            let mut u: Unit = self.units[i];
            u.go(prev_pos);
            self.units[i] = u;
            prev_pos = u.position;
            i = i + 1;
        }
    }

    /// True iff the head overlaps the fruit.
    pub fn can_eat(&self, fruit: &Fruit) -> (r: bool)
        requires
            self.wf(),
            fruit.wf(),
        ensures
            r == can_eat_spec(self.head.unit.position, fruit.position),
    {
        self.head.intersect(fruit.position, FRUIT_RADIUS)
    }

    /// True iff the game is lost: the head touches a body unit past the
    /// neck (under the tightened radius), or leaves the playable square.
    pub fn is_lose(&self) -> (r: bool)
        requires
            self.wf(),
        ensures
            r == lose_spec(self.head.unit.position, self.units@),
    {
        let ghost head: Vec2i = self.head.unit.position;
        let mut hit: bool = false;
        let mut i: usize = 1;
        while i < self.units.len()
            invariant
                1 <= i,
                i <= self.units@.len() || i == 1,
                self.wf(),
                head == self.head.unit.position,
                hit == exists|j: int| 1 <= j < i && body_hit_at(head, self.units@, j),
            decreases self.units@.len() - i,
        {
            if self.head.intersect(self.units[i].position, BODY_LOSS_RADIUS) {
                proof {
                    assert(body_hit_at(head, self.units@, i as int));
                }
                hit = true;
            }
            i = i + 1;
        }
        let hx: i64 = self.head.position().x;
        let hy: i64 = self.head.position().y;
        let wall: bool = hx > MAX_PLAY_COORD || hx < -MAX_PLAY_COORD
            || hy > MAX_PLAY_COORD || hy < -MAX_PLAY_COORD;
        hit || wall
    }

    /// Appends a body unit coincident with the last unit of the chain
    /// (with the head itself, when the body is still empty).
    pub fn add_unit(&mut self)
        requires
            old(self).wf(),
            old(self).units@.len() < SNAKE_CAP,
        ensures
            final(self).head == old(self).head,
            final(self).units@ == old(self).units@.push(
                if old(self).units@.len() == 0 {
                    old(self).head.unit
                } else {
                    old(self).units@.last()
                },
            ),
            final(self).wf(),
    {
        let last_unit: Unit = if self.units.len() == 0 {
            self.head.unit
        } else {
            self.units[self.units.len() - 1]
        };
        self.units.push(last_unit);
    }

    /// Number of units, the head included.
    pub fn length(&self) -> (n: u32)
        requires
            self.units@.len() <= SNAKE_CAP,
        ensures
            n == self.units@.len() + 1,
    {
        (self.units.len() + 1) as u32
    }
}

/// The body chain after one growth: the new unit starts coincident with
/// the last unit (with the head, when the body is empty).
pub open spec fn grown_units_spec(head: Head, units: Seq<Unit>) -> Seq<Unit> {
    if units.len() == 0 {
        units.push(head.unit)
    } else {
        units.push(units.last())
    }
}

/// The rotation actually applied in one frame, in micro-radians:
/// `rotation * dt`, with the fixed-point scale divided back out.
pub open spec fn angle_from_spec(rotation: int, dt: int) -> int {
    if rotation >= 0 {
        rotation * dt / (ONE as int)
    } else {
        -((-rotation) * dt / (ONE as int))
    }
}

impl Default for Snake {
    /// A fresh snake: a bare head at the field's center, facing along the
    /// positive x axis at the initial speed, with no body units.
    fn default() -> (s: Snake)
        ensures
            s.head.unit.position == (Vec2i { x: 0, y: 0 }),
            s.head.heading == 0,
            s.head.speed == INIT_SPEED,
            s.units@.len() == 0,
            s.wf(),
    {
        Snake {
            head: Head {
                unit: Unit { position: Vec2i { x: 0, y: 0 } },
                heading: 0,
                speed: INIT_SPEED,
            },
            units: Vec::new(),
        }
    }
}

} // verus!

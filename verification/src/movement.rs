//! Per-tick movement-intent resolution.
//!
//! A location is a pair of fixed-point coordinates: `i64` counts of sub-units,
//! [`SUBUNITS_PER_FIELD`] of them to one field of the grid. Working in exact
//! integer sub-units (rather than a binary floating-point approximation) lets
//! every step be computed and specified exactly: a tick never overshoots the
//! remaining displacement, the remaining displacement reaches exactly zero,
//! and no drift-correcting tolerance is needed.

use vstd::prelude::*;
use vstd::math::abs;
use vstd::math::min;
use vstd::arithmetic::div_mod::lemma_div_is_ordered;
use vstd::arithmetic::div_mod::lemma_div_multiples_vanish;
use vstd::arithmetic::div_mod::lemma_div_pos_is_pos;
use vstd::arithmetic::div_mod::lemma_fundamental_div_mod;
use vstd::arithmetic::div_mod::lemma_mod_bound;
use vstd::arithmetic::mul::lemma_mul_inequality;

verus! {

/// Number of fixed-point sub-units in one field (tile) of the grid.
pub const SUBUNITS_PER_FIELD: i64 = 10_000_000;

/// The default movement speed, in sub-units per second (five fields).
pub const DEFAULT_SPEED: i64 = 50_000_000;

/// 4-way facing of an entity, independent of any movement intent.
#[derive(Clone, Copy, Debug, PartialEq, Eq, Structural)]
pub enum Direction {
    Up,
    Left,
    Down,
    Right,
}

/// A 2D vector in fixed-point sub-units; an absolute position or,
/// polymorphically, a relative displacement.
#[derive(Clone, Copy, Debug, PartialEq, Eq, Structural)]
pub struct LocationVec {
    pub x: i64,
    pub y: i64,
}

/// Describes the intent of an entity to move to a certain location:
/// either by a remaining displacement, or toward an absolute position,
/// at a speed in sub-units per second.
#[derive(Clone, Copy, Debug, PartialEq, Eq, Structural)]
pub enum MoveIntent {
    Vector(LocationVec, i64),
    Position(LocationVec, i64),
}

/// Sub-units advanced in one tick: the speed divided by the tick rate,
/// rounded up to whole sub-units. Rounding up keeps the quantized mover at
/// or ahead of the real-valued rate — so `n` ticks at the rate always cover
/// what `n` ticks of steps must cover, and arrival happens within the time
/// the rate allows (`lemma_arrives_at_rate`) — and it gives any positive
/// speed a step of at least one sub-unit, so a slow mover cannot stall. The
/// per-axis clamps keep a step from ever overshooting. A non-positive speed
/// degenerates to no movement.
pub open spec fn step_size(speed: int, updates_per_second: int) -> int {
    if speed <= 0 {
        0
    } else {
        (speed + updates_per_second - 1) / updates_per_second
    }
}

/// Unsigned share of one tick's step spent on the x axis: proportional to
/// the axes' absolute remaining displacements (`a` the x axis's, `b` the
/// y axis's), rounded down, and clamped so the axis never overshoots.
pub open spec fn first_share(step: int, a: int, b: int) -> int {
    if a + b == 0 {
        0
    } else {
        min(step * a / (a + b), a)
    }
}

/// Unsigned share spent on the y axis: whatever the x axis left of the
/// step, clamped the same way. Handing the remainder on (rather than a
/// second rounded-down proportion) keeps the whole step in use, so a tick
/// with a positive step always moves while any displacement remains.
pub open spec fn second_share(step: int, a: int, b: int) -> int {
    let rest = step - first_share(step, a, b);
    if rest <= 0 {
        0
    } else {
        min(rest, b)
    }
}

/// Signed movement along the x axis (`d` its remaining displacement,
/// `other` the y axis's).
pub open spec fn first_axis_step(step: int, d: int, other: int) -> int {
    if d < 0 {
        -first_share(step, abs(d) as int, abs(other) as int)
    } else {
        first_share(step, abs(d) as int, abs(other) as int)
    }
}

/// Signed movement along the y axis (`d` its remaining displacement,
/// `other` the x axis's).
pub open spec fn second_axis_step(step: int, d: int, other: int) -> int {
    if d < 0 {
        -second_share(step, abs(other) as int, abs(d) as int)
    } else {
        second_share(step, abs(other) as int, abs(d) as int)
    }
}

impl MoveIntent {
    /// The speed field, identical in either variant.
    pub open spec fn spec_speed(self) -> i64 {
        match self {
            MoveIntent::Vector(_, s) => s,
            MoveIntent::Position(_, s) => s,
        }
    }

    /// Remaining displacement along x, seen from `loc`.
    pub open spec fn disp_x(self, loc: LocationVec) -> int {
        match self {
            MoveIntent::Vector(d, _) => d.x as int,
            MoveIntent::Position(t, _) => t.x - loc.x,
        }
    }

    /// Remaining displacement along y, seen from `loc`.
    pub open spec fn disp_y(self, loc: LocationVec) -> int {
        match self {
            MoveIntent::Vector(d, _) => d.y as int,
            MoveIntent::Position(t, _) => t.y - loc.y,
        }
    }

    /// x coordinate of the point the intent is ultimately headed to.
    pub open spec fn goal_x(self, loc: LocationVec) -> int {
        match self {
            MoveIntent::Vector(d, _) => loc.x + d.x,
            MoveIntent::Position(t, _) => t.x as int,
        }
    }

    /// y coordinate of the point the intent is ultimately headed to.
    pub open spec fn goal_y(self, loc: LocationVec) -> int {
        match self {
            MoveIntent::Vector(d, _) => loc.y + d.y,
            MoveIntent::Position(t, _) => t.y as int,
        }
    }

    /// Machine limit for advancing from `loc`: the remaining displacement and
    /// the goal coordinates must fit in `i64`.
    pub open spec fn can_advance_from(self, loc: LocationVec) -> bool {
        &&& i64::MIN <= self.disp_x(loc) <= i64::MAX
        &&& i64::MIN <= self.disp_y(loc) <= i64::MAX
        &&& i64::MIN <= loc.x + self.disp_x(loc) <= i64::MAX
        &&& i64::MIN <= loc.y + self.disp_y(loc) <= i64::MAX
    }

    /// The location one tick of advancing from `loc` arrives at.
    pub open spec fn next_location(self, loc: LocationVec, ups: int) -> LocationVec {
        let step = step_size(self.spec_speed() as int, ups);
        let mx = first_axis_step(step, self.disp_x(loc), self.disp_y(loc));
        let my = second_axis_step(step, self.disp_y(loc), self.disp_x(loc));
        LocationVec { x: (loc.x + mx) as i64, y: (loc.y + my) as i64 }
    }

    /// The intent after one tick of advancing from `loc`: a `Position` intent
    /// is unchanged, a `Vector` intent keeps its speed and loses the moved
    /// amount from its displacement.
    pub open spec fn next_intent(self, loc: LocationVec, ups: int) -> MoveIntent {
        match self {
            MoveIntent::Position(t, s) => MoveIntent::Position(t, s),
            MoveIntent::Vector(d, s) => {
                let step = step_size(s as int, ups);
                let mx = first_axis_step(step, d.x as int, d.y as int);
                let my = second_axis_step(step, d.y as int, d.x as int);
                MoveIntent::Vector(
                    LocationVec { x: (d.x - mx) as i64, y: (d.y - my) as i64 },
                    s,
                )
            },
        }
    }

    /// Whether the intent's goal has been reached at `loc`: exact equality
    /// with the target for `Position`, both displacement components exactly
    /// zero for `Vector`.
    pub open spec fn spec_arrived(self, loc: LocationVec) -> bool {
        match self {
            MoveIntent::Position(t, _) => loc == t,
            MoveIntent::Vector(d, _) => d.x == 0 && d.y == 0,
        }
    }

    /// Lets the intent progress one tick toward its goal: a tick advances
    /// `speed / updates_per_second` sub-units, rounded up to whole
    /// sub-units, split between the axes in proportion to their remaining
    /// displacements and clamped so that no axis overshoots. A tick spends
    /// its whole step while more than a step remains, so the goal is
    /// reached exactly within the time the speed allows
    /// (`lemma_arrives_at_rate`). A `Vector` intent is rewritten in place
    /// with the moved amount subtracted; a `Position` intent is left
    /// unchanged. Returns the new absolute location; the caller writes it
    /// back into whatever location storage it came from.
    pub fn move_from(&mut self, location: &LocationVec, updates_per_second: u64) -> (r: LocationVec)
        requires
            updates_per_second >= 1,
            old(self).can_advance_from(*location),
        ensures
            *final(self) == old(self).next_intent(*location, updates_per_second as int),
            r == old(self).next_location(*location, updates_per_second as int),
            abs(r.x - location.x) <= abs(old(self).disp_x(*location)),
            abs(r.y - location.y) <= abs(old(self).disp_y(*location)),
            final(self).goal_x(r) == old(self).goal_x(*location),
            final(self).goal_y(r) == old(self).goal_y(*location),
            old(self).spec_speed() > 0 && !old(self).spec_arrived(*location) ==> abs(
                final(self).disp_x(r),
            ) + abs(final(self).disp_y(r)) < abs(old(self).disp_x(*location)) + abs(
                old(self).disp_y(*location),
            ),
            old(self).spec_speed() > 0 ==> abs(final(self).disp_x(r)) + abs(final(self).disp_y(r))
                <= ({
                let total = abs(old(self).disp_x(*location)) + abs(old(self).disp_y(*location));
                let step = step_size(old(self).spec_speed() as int, updates_per_second as int);
                if total <= step {
                    0int
                } else {
                    total - step
                }
            }),
    {
        proof {
            lemma_no_overshoot(*self, *location, updates_per_second as int);
            lemma_goal_stable(*self, *location, updates_per_second as int);
            if self.spec_speed() > 0 {
                lemma_tick_progress(*self, *location, updates_per_second as int);
                if !self.spec_arrived(*location) {
                    lemma_strict_progress(*self, *location, updates_per_second as int);
                }
            }
        }
        match *self {
            MoveIntent::Position(target, speed) => {
                let d = LocationVec { x: target.x - location.x, y: target.y - location.y };
                let (_, new_loc) = advance_vector(&d, speed, location, updates_per_second);
                new_loc
            },
            MoveIntent::Vector(d, speed) => {
                let (new_d, new_loc) = advance_vector(&d, speed, location, updates_per_second);
                *self = MoveIntent::Vector(new_d, speed);
                new_loc
            },
        }
    }

    /// Tests whether the intent has reached its goal at `current_location`.
    pub fn has_arrived(&self, current_location: &LocationVec) -> (r: bool)
        ensures
            r == self.spec_arrived(*current_location),
    {
        match *self {
            MoveIntent::Position(target, _) => {
                current_location.x == target.x && current_location.y == target.y
            },
            MoveIntent::Vector(d, _) => d.x == 0 && d.y == 0,
        }
    }

    /// The location the intent will ultimately go towards from
    /// `current_location`. Pure: mutates nothing.
    pub fn target_goal(&self, current_location: &LocationVec) -> (r: LocationVec)
        requires
            i64::MIN <= self.goal_x(*current_location) <= i64::MAX,
            i64::MIN <= self.goal_y(*current_location) <= i64::MAX,
        ensures
            r.x == self.goal_x(*current_location),
            r.y == self.goal_y(*current_location),
    {
        match *self {
            MoveIntent::Position(target, _) => target,
            MoveIntent::Vector(d, _) => LocationVec {
                x: current_location.x + d.x,
                y: current_location.y + d.y,
            },
        }
    }
}

/// Advances a displacement `d` at `speed` from `location` by one tick:
/// returns the displacement that remains and the new absolute location.
fn advance_vector(d: &LocationVec, speed: i64, location: &LocationVec, updates_per_second: u64) -> (r: (
    LocationVec,
    LocationVec,
))
    requires
        updates_per_second >= 1,
        i64::MIN <= location.x + d.x <= i64::MAX,
        i64::MIN <= location.y + d.y <= i64::MAX,
    ensures
        ({
            let step = step_size(speed as int, updates_per_second as int);
            let mx = first_axis_step(step, d.x as int, d.y as int);
            let my = second_axis_step(step, d.y as int, d.x as int);
            &&& r.0.x == d.x - mx
            &&& r.0.y == d.y - my
            &&& r.1.x == location.x + mx
            &&& r.1.y == location.y + my
        }),
{
    let ghost step = step_size(speed as int, updates_per_second as int);
    let step_u: u128 = if speed <= 0 {
        0
    } else {
        let ups_u = updates_per_second as u128;
        ((speed as u128) + ups_u - 1) / ups_u
    };
    proof {
        let s = speed as int;
        let u = updates_per_second as int;
        if speed > 0 {
            assert(s + u - 1 <= s * u) by (nonlinear_arith)
                requires
                    s >= 1,
                    u >= 1,
            ;
            lemma_div_is_ordered(s + u - 1, s * u, u);
            lemma_div_multiples_vanish(s, u);
        }
    }
    assert(step_u == step);
    assert(step_u <= i64::MAX);

    let dx: i128 = d.x as i128;
    let dy: i128 = d.y as i128;
    let ax: u128 = (if dx < 0 { -dx } else { dx }) as u128;
    let ay: u128 = (if dy < 0 { -dy } else { dy }) as u128;
    assert(ax == abs(d.x as int));
    assert(ay == abs(d.y as int));

    let denom: u128 = ax + ay;
    let ghost gmx = first_axis_step(step, d.x as int, d.y as int);
    let ghost gmy = second_axis_step(step, d.y as int, d.x as int);

    let (mx, my): (i128, i128) = if denom == 0 {
        (0, 0)
    } else {
        assert(step_u * ax <= (i64::MAX as u128) * 0x8000_0000_0000_0000u128) by (nonlinear_arith)
            requires
                step_u <= i64::MAX as u128,
                ax <= 0x8000_0000_0000_0000u128,
        ;
        let qx: u128 = step_u * ax / denom;
        let sx: u128 = if qx < ax { qx } else { ax };
        proof {
            assert(step_u * ax <= step_u * denom) by (nonlinear_arith)
                requires
                    ax <= denom,
                    step_u >= 0,
            ;
            lemma_div_is_ordered((step_u * ax) as int, (step_u * denom) as int, denom as int);
            lemma_div_multiples_vanish(step_u as int, denom as int);
        }
        assert(qx <= step_u);
        let rest: u128 = step_u - sx;
        let sy: u128 = if rest < ay { rest } else { ay };
        assert(sx == first_share(step, abs(d.x as int) as int, abs(d.y as int) as int));
        assert(sy == second_share(step, abs(d.x as int) as int, abs(d.y as int) as int));
        (
            if dx < 0 { -(sx as i128) } else { sx as i128 },
            if dy < 0 { -(sy as i128) } else { sy as i128 },
        )
    };
    assert(mx == gmx);
    assert(my == gmy);
    assert(dx <= 0 ==> dx <= mx <= 0);
    assert(dx >= 0 ==> 0 <= mx <= dx);
    assert(dy <= 0 ==> dy <= my <= 0);
    assert(dy >= 0 ==> 0 <= my <= dy);

    let new_d = LocationVec { x: (dx - mx) as i64, y: (dy - my) as i64 };
    let lx: i128 = location.x as i128;
    let ly: i128 = location.y as i128;
    let new_loc = LocationVec { x: (lx + mx) as i64, y: (ly + my) as i64 };
    (new_d, new_loc)
}

/// A tick's step along each axis is bounded by that axis's remaining
/// displacement and moves in its direction.
pub proof fn lemma_axis_steps_bounded(step: int, dx: int, dy: int)
    requires
        0 <= step,
    ensures
        dx >= 0 ==> 0 <= first_axis_step(step, dx, dy) <= dx,
        dx < 0 ==> dx <= first_axis_step(step, dx, dy) <= 0,
        abs(first_axis_step(step, dx, dy)) <= abs(dx),
        dy >= 0 ==> 0 <= second_axis_step(step, dy, dx) <= dy,
        dy < 0 ==> dy <= second_axis_step(step, dy, dx) <= 0,
        abs(second_axis_step(step, dy, dx)) <= abs(dy),
{
    let a = abs(dx) as int;
    let b = abs(dy) as int;
    if a + b != 0 {
        assert(step * a >= 0) by (nonlinear_arith)
            requires
                step >= 0,
                a >= 0,
        ;
        lemma_div_pos_is_pos(step * a, a + b);
    }
}

/// A positive speed always yields a step of at least one sub-unit.
proof fn lemma_step_at_least_one(speed: int, ups: int)
    requires
        speed >= 1,
        ups >= 1,
    ensures
        step_size(speed, ups) >= 1,
{
    lemma_div_is_ordered(ups, speed + ups - 1, ups);
    lemma_div_multiples_vanish(1, ups);
    assert(ups * 1 == ups);
}

/// While the goal is not reached and the speed is positive, one tick
/// strictly shrinks the total remaining distance — so repeated advancing
/// reaches the goal exactly after finitely many ticks.
pub proof fn lemma_strict_progress(intent: MoveIntent, loc: LocationVec, ups: int)
    requires
        ups >= 1,
        intent.can_advance_from(loc),
        intent.spec_speed() > 0,
        !intent.spec_arrived(loc),
    ensures
        ({
            let r = intent.next_location(loc, ups);
            let next = intent.next_intent(loc, ups);
            abs(next.disp_x(r)) + abs(next.disp_y(r)) < abs(intent.disp_x(loc)) + abs(
                intent.disp_y(loc),
            )
        }),
{
    let step = step_size(intent.spec_speed() as int, ups);
    let dx = intent.disp_x(loc);
    let dy = intent.disp_y(loc);
    let a = abs(dx) as int;
    let b = abs(dy) as int;
    lemma_step_at_least_one(intent.spec_speed() as int, ups);
    assert(step >= 1);
    assert(a + b > 0);
    lemma_axis_steps_bounded(step, dx, dy);
    let sx = first_share(step, a, b);
    let sy = second_share(step, a, b);
    if a + b <= step {
        lemma_mul_inequality(a + b, step, a);
        lemma_div_is_ordered((a + b) * a, step * a, a + b);
        lemma_div_multiples_vanish(a, a + b);
        assert(sx == a);
        assert(sy == b);
    } else {
        assert(step * a <= step * (a + b)) by (nonlinear_arith)
            requires
                a >= 0,
                b >= 0,
                step >= 0,
        ;
        lemma_div_is_ordered(step * a, step * (a + b), a + b);
        lemma_div_multiples_vanish(step, a + b);
        assert(sx <= step);
        if b == 0 {
            lemma_div_multiples_vanish(step, a);
            assert(sx == step);
        } else {
            assert(sx + sy >= 1);
        }
    }
    assert(sx + sy >= 1);
}

/// No overshoot: one tick of advancing never moves either axis farther from
/// the tick's starting location than that axis's remaining displacement at
/// the start of the tick.
pub proof fn lemma_no_overshoot(intent: MoveIntent, loc: LocationVec, ups: int)
    requires
        ups >= 1,
        intent.can_advance_from(loc),
    ensures
        abs(intent.next_location(loc, ups).x - loc.x) <= abs(intent.disp_x(loc)),
        abs(intent.next_location(loc, ups).y - loc.y) <= abs(intent.disp_y(loc)),
{
    let step = step_size(intent.spec_speed() as int, ups);
    if intent.spec_speed() > 0 {
        lemma_div_pos_is_pos(intent.spec_speed() as int + ups - 1, ups);
    }
    lemma_axis_steps_bounded(step, intent.disp_x(loc), intent.disp_y(loc));
}

/// A tick whose step covers the whole remaining distance finishes the move
/// exactly: the new location is the goal, and the advanced intent has
/// arrived there. Arrival is exact, with no tolerance left over.
pub proof fn lemma_full_step_arrives(intent: MoveIntent, loc: LocationVec, ups: int)
    requires
        ups >= 1,
        intent.can_advance_from(loc),
        step_size(intent.spec_speed() as int, ups) >= abs(intent.disp_x(loc)) + abs(
            intent.disp_y(loc),
        ),
    ensures
        intent.next_location(loc, ups).x == intent.goal_x(loc),
        intent.next_location(loc, ups).y == intent.goal_y(loc),
        intent.next_intent(loc, ups).spec_arrived(intent.next_location(loc, ups)),
{
    let step = step_size(intent.spec_speed() as int, ups);
    let a = abs(intent.disp_x(loc)) as int;
    let b = abs(intent.disp_y(loc)) as int;
    if a + b > 0 {
        lemma_mul_inequality(a + b, step, a);
        lemma_div_is_ordered((a + b) * a, step * a, a + b);
        lemma_div_multiples_vanish(a, a + b);
        assert(first_share(step, a, b) == a);
        assert(second_share(step, a, b) == b);
    }
}

/// One tick spends the whole step while more than a step remains, and
/// finishes the move once the step covers what remains: the total remaining
/// distance after a tick is at most `total - step`, or zero.
pub proof fn lemma_tick_progress(intent: MoveIntent, loc: LocationVec, ups: int)
    requires
        ups >= 1,
        intent.can_advance_from(loc),
        intent.spec_speed() > 0,
    ensures
        ({
            let r = intent.next_location(loc, ups);
            let next = intent.next_intent(loc, ups);
            let total = abs(intent.disp_x(loc)) + abs(intent.disp_y(loc));
            let step = step_size(intent.spec_speed() as int, ups);
            abs(next.disp_x(r)) + abs(next.disp_y(r)) <= (if total <= step {
                0int
            } else {
                total - step
            })
        }),
{
    let step = step_size(intent.spec_speed() as int, ups);
    let dx = intent.disp_x(loc);
    let dy = intent.disp_y(loc);
    let a = abs(dx) as int;
    let b = abs(dy) as int;
    lemma_step_at_least_one(intent.spec_speed() as int, ups);
    lemma_axis_steps_bounded(step, dx, dy);
    let sx = first_share(step, a, b);
    let sy = second_share(step, a, b);
    if a + b == 0 {
    } else if a + b <= step {
        lemma_mul_inequality(a + b, step, a);
        lemma_div_is_ordered((a + b) * a, step * a, a + b);
        lemma_div_multiples_vanish(a, a + b);
        assert(sx == a);
        assert(sy == b);
    } else {
        assert(step * a <= step * (a + b)) by (nonlinear_arith)
            requires
                a >= 0,
                b >= 0,
                step >= 0,
        ;
        lemma_div_is_ordered(step * a, step * (a + b), a + b);
        lemma_div_multiples_vanish(step, a + b);
        assert(sx <= step);
        if b == 0 {
            lemma_div_multiples_vanish(step, a);
            assert(sx == step);
        } else if b >= step - sx {
            assert(sx + sy >= step);
        } else {
            // the y axis is clamped by its own remaining distance; the x
            // share still brings the pair up to a full step
            assert(a >= 1);
            let q = step * a / (a + b);
            lemma_fundamental_div_mod(step * a, a + b);
            lemma_mod_bound(step * a, a + b);
            let m = (step * a) % (a + b);
            if q >= a {
                assert((a + b) * q >= (a + b) * a) by (nonlinear_arith)
                    requires
                        q >= a,
                        a + b >= 0,
                ;
                assert(step * a < (a + b) * a) by (nonlinear_arith)
                    requires
                        step < a + b,
                        a >= 1,
                ;
                assert(false);
            }
            assert(sx == q);
            if sx + b < step {
                assert(step * a < (a + b) * (q + 1)) by (nonlinear_arith)
                    requires
                        step * a == (a + b) * q + m,
                        m < a + b,
                ;
                assert(false) by (nonlinear_arith)
                    requires
                        step * a < (a + b) * (q + 1),
                        q + 1 <= step - b,
                        step <= a + b - 1,
                        b >= 1,
                        a >= 0,
                ;
            }
            assert(sx + sy >= step);
        }
    }
}

/// The intent and location after `n` ticks of advancing.
pub open spec fn advance_n(intent: MoveIntent, loc: LocationVec, ups: int, n: nat) -> (
    MoveIntent,
    LocationVec,
)
    decreases n,
{
    if n == 0 {
        (intent, loc)
    } else {
        advance_n(
            intent.next_intent(loc, ups),
            intent.next_location(loc, ups),
            ups,
            (n - 1) as nat,
        )
    }
}

/// Bounded arrival: as soon as `n` ticks' worth of steps cover the total
/// remaining distance, `n` ticks of advancing have arrived exactly.
pub proof fn lemma_arrives_within(intent: MoveIntent, loc: LocationVec, ups: int, n: nat)
    requires
        ups >= 1,
        intent.can_advance_from(loc),
        intent.spec_speed() > 0,
        n * step_size(intent.spec_speed() as int, ups) >= abs(intent.disp_x(loc)) + abs(
            intent.disp_y(loc),
        ),
    ensures
        ({
            let end = advance_n(intent, loc, ups, n);
            end.0.spec_arrived(end.1)
        }),
    decreases n,
{
    let step = step_size(intent.spec_speed() as int, ups);
    let total = abs(intent.disp_x(loc)) + abs(intent.disp_y(loc));
    lemma_step_at_least_one(intent.spec_speed() as int, ups);
    if n == 0 {
        assert(n * step == 0) by (nonlinear_arith)
            requires
                n == 0,
        ;
        assert(total == 0);
    } else {
        let next = intent.next_intent(loc, ups);
        let r = intent.next_location(loc, ups);
        lemma_axis_steps_bounded(step, intent.disp_x(loc), intent.disp_y(loc));
        lemma_goal_stable(intent, loc, ups);
        lemma_tick_progress(intent, loc, ups);
        assert(next.spec_speed() == intent.spec_speed());
        assert(next.can_advance_from(r));
        assert(((n - 1) as nat) * step == n * step - step) by (nonlinear_arith)
            requires
                n >= 1,
        ;
        lemma_arrives_within(next, r, ups, (n - 1) as nat);
    }
}

/// Arrival within the time the rate allows: when `n` ticks at `speed`
/// sub-units per second cover the total remaining distance — that is,
/// `n >= ceil(total * updates_per_second / speed)` — then `n` ticks of
/// advancing have arrived exactly. The rounded-up step is never behind the
/// real-valued rate.
pub proof fn lemma_arrives_at_rate(intent: MoveIntent, loc: LocationVec, ups: int, n: nat)
    requires
        ups >= 1,
        intent.can_advance_from(loc),
        intent.spec_speed() > 0,
        n * intent.spec_speed() >= (abs(intent.disp_x(loc)) + abs(intent.disp_y(loc))) * ups,
    ensures
        ({
            let end = advance_n(intent, loc, ups, n);
            end.0.spec_arrived(end.1)
        }),
{
    let s = intent.spec_speed() as int;
    let total = abs(intent.disp_x(loc)) + abs(intent.disp_y(loc));
    let step = step_size(s, ups);
    lemma_step_at_least_one(s, ups);
    lemma_fundamental_div_mod(s + ups - 1, ups);
    lemma_mod_bound(s + ups - 1, ups);
    let m = (s + ups - 1) % ups;
    assert(ups * step == s + ups - 1 - m);
    assert(ups * step >= s);
    assert(n * step >= total) by (nonlinear_arith)
        requires
            ups * step >= s,
            n * s >= total * ups,
            ups >= 1,
            n >= 0,
            total >= 0,
            step >= 0,
    ;
    lemma_arrives_within(intent, loc, ups, n);
}

/// The goal of an intent is stable across ticks: after one advance, seen from
/// the new location, the updated intent reports the same goal as the original
/// intent did from the old location.
pub proof fn lemma_goal_stable(intent: MoveIntent, loc: LocationVec, ups: int)
    requires
        ups >= 1,
        intent.can_advance_from(loc),
    ensures
        intent.next_intent(loc, ups).goal_x(intent.next_location(loc, ups)) == intent.goal_x(loc),
        intent.next_intent(loc, ups).goal_y(intent.next_location(loc, ups)) == intent.goal_y(loc),
{
    let step = step_size(intent.spec_speed() as int, ups);
    if intent.spec_speed() > 0 {
        lemma_div_pos_is_pos(intent.spec_speed() as int + ups - 1, ups);
    }
    lemma_axis_steps_bounded(step, intent.disp_x(loc), intent.disp_y(loc));
}

} // verus!

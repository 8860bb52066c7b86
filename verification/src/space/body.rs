use vstd::prelude::*;

use crate::math::fix_add;
use crate::math::fix_div;
use crate::math::fix_mul;
use crate::math::fix_neg;
use crate::math::abs1;
use crate::math::fix_sub;
use crate::math::lemma_wrap_i64_id;
use crate::math::trunc_div;
use crate::math::wrap_i64;
use crate::units;

use std::ops::Neg;

verus! {

/// A kinematic body: a position and velocity anchored at the moment they
/// were last changed.  Positions at other times come from linear
/// extrapolation, so a body that nobody touches needs no further updates.
#[derive(Clone, Copy, Debug)]
pub struct Body {
    last_position: units::Position,
    current_velocity: units::Velocity,
    last_time: units::Time,
}

/// Raw value of one coordinate of a body anchored at `(p, t0)` with
/// velocity `v`, extrapolated to time `t`.
pub open spec fn pos_at(p: int, v: int, t0: int, t: int) -> int {
    fix_add(p, fix_mul(v, fix_sub(t, t0)))
}

/// When two bodies describe the same trajectory: both still, at the same
/// place, whenever they were anchored; or moving alike from the same
/// anchor.  Raw values are compared, not extrapolations, so rounding
/// errors propagate consistently.
pub open spec fn body_equiv(a: Body, b: Body) -> bool {
    &&& a.spec_position() == b.spec_position()
    &&& a.spec_velocity() == b.spec_velocity()
    &&& (a.spec_velocity() == (units::Velocity { x: crate::math::Scalar { bits: 0 }, y: crate::math::Scalar { bits: 0 } })
        || a.spec_time() == b.spec_time())
}

impl Body {
    /// The anchored position.
    pub closed spec fn spec_position(&self) -> units::Position {
        self.last_position
    }

    /// The current velocity.
    pub closed spec fn spec_velocity(&self) -> units::Velocity {
        self.current_velocity
    }

    /// The anchor time.
    pub closed spec fn spec_time(&self) -> units::Time {
        self.last_time
    }

    /// The value `split` builds: the extrapolated position re-anchored
    /// at `now` under the new velocity.
    pub closed spec fn spec_split(self, velocity: units::Velocity, now: units::Time) -> Body {
        Body {
            last_position: units::Position {
                x: crate::math::Coord { bits: body_x_at(self, now) as i64 },
                y: crate::math::Coord { bits: body_y_at(self, now) as i64 },
            },
            current_velocity: velocity,
            last_time: now,
        }
    }

    /// The value `new_frozen` builds: resting at `position` since the
    /// beginning of time.
    pub closed spec fn spec_frozen(position: units::Position) -> Body {
        Body {
            last_position: position,
            current_velocity: units::Velocity {
                x: crate::math::Scalar { bits: 0 },
                y: crate::math::Scalar { bits: 0 },
            },
            last_time: units::Time { bits: 0 },
        }
    }

    /// Anchors a body at `position` and `time`, moving at `velocity`.
    pub fn new(position: units::Position, velocity: units::Velocity, time: units::Time) -> (r:
        Body)
        ensures
            r.spec_position() == position,
            r.spec_velocity() == velocity,
            r.spec_time() == time,
    {
        Body { last_position: position, current_velocity: velocity, last_time: time }
    }

    /// A body that travels from `start` to `end` over `travel_time`,
    /// leaving at `start_time`; an instantaneous trip freezes at `end`.
    pub fn with_end_point(
        start: units::Position,
        end: units::Position,
        start_time: units::Time,
        travel_time: units::Duration,
    ) -> (r: Body)
        ensures
            travel_time@ != 0 ==> {
                &&& r.spec_position() == start
                &&& r.spec_velocity().x@ == fix_div(fix_sub(end.x@, start.x@), travel_time@)
                &&& r.spec_velocity().y@ == fix_div(fix_sub(end.y@, start.y@), travel_time@)
                &&& r.spec_time() == start_time
            },
            travel_time@ == 0 ==> {
                &&& r.spec_position() == end
                &&& r.spec_velocity().x@ == 0 && r.spec_velocity().y@ == 0
                &&& r.spec_time()@ == 0
            },
    {
        if travel_time.into_bits() != 0 {
            Body {
                last_position: start,
                current_velocity: (end - start) / travel_time,
                last_time: start_time,
            }
        } else {
            Body::new_frozen(end)
        }
    }

    /// A body resting at `position` since the beginning of time.
    pub fn new_frozen(position: units::Position) -> (r: Body)
        ensures
            r.spec_position() == position,
            r.spec_velocity().x@ == 0 && r.spec_velocity().y@ == 0,
            r.spec_time()@ == 0,
            r == Body::spec_frozen(position),
    {
        Body {
            last_position: position,
            current_velocity: Default::default(),
            last_time: Default::default(),
        }
    }

    /// Where the body is at time `now`, by linear extrapolation.
    pub fn position(&self, now: units::Time) -> (r: units::Position)
        ensures
            r.x@ == pos_at(
                self.spec_position().x@,
                self.spec_velocity().x@,
                self.spec_time()@,
                now@,
            ),
            r.y@ == pos_at(
                self.spec_position().y@,
                self.spec_velocity().y@,
                self.spec_time()@,
                now@,
            ),
    {
        let dtime: units::Duration = now - self.last_time;
        let displacement: units::Displacement = self.current_velocity * dtime;
        self.last_position + displacement
    }

    /// The current velocity.
    pub fn velocity(&self) -> (r: units::Velocity)
        ensures
            r == self.spec_velocity(),
    {
        self.current_velocity
    }

    /// The same trajectory up to `now`, then `velocity` from wherever the
    /// body is at that moment: the only way a velocity ever changes, so
    /// position is continuous across the change.
    pub fn split(&self, velocity: units::Velocity, now: units::Time) -> (r: Body)
        ensures
            r.spec_position().x@ == pos_at(
                self.spec_position().x@,
                self.spec_velocity().x@,
                self.spec_time()@,
                now@,
            ),
            r.spec_position().y@ == pos_at(
                self.spec_position().y@,
                self.spec_velocity().y@,
                self.spec_time()@,
                now@,
            ),
            r.spec_velocity() == velocity,
            r.spec_time() == now,
            r == self.spec_split(velocity, now),
    {
        Body { last_position: self.position(now), current_velocity: velocity, last_time: now }
    }

    /// The same trajectory up to `now`, then heading for `end_point` so as
    /// to arrive at `end_time`.
    pub fn split_to(&self, end_point: units::Position, now: units::Time, end_time: units::Time) -> (r:
        Body)
        ensures
            fix_sub(end_time@, now@) != 0 ==> {
                &&& r.spec_position().x@ == pos_at(
                    self.spec_position().x@,
                    self.spec_velocity().x@,
                    self.spec_time()@,
                    now@,
                )
                &&& r.spec_position().y@ == pos_at(
                    self.spec_position().y@,
                    self.spec_velocity().y@,
                    self.spec_time()@,
                    now@,
                )
                &&& r.spec_time() == now
            },
            fix_sub(end_time@, now@) == 0 ==> {
                &&& r.spec_position() == end_point
                &&& r.spec_time()@ == 0
            },
    {
        Body::with_end_point(self.position(now), end_point, now, end_time - now)
    }

    /// Re-anchors this body in place with a new velocity, as `split` does.
    pub fn bounce(&mut self, velocity: units::Velocity, now: units::Time)
        ensures
            final(self).spec_position().x@ == pos_at(
                old(self).spec_position().x@,
                old(self).spec_velocity().x@,
                old(self).spec_time()@,
                now@,
            ),
            final(self).spec_position().y@ == pos_at(
                old(self).spec_position().y@,
                old(self).spec_velocity().y@,
                old(self).spec_time()@,
                now@,
            ),
            final(self).spec_velocity() == velocity,
            final(self).spec_time() == now,
            *final(self) == old(self).spec_split(velocity, now),
    {
        *self = self.split(velocity, now);
    }

    /// Re-anchors this body toward `end_point`, as `split_to` does.
    pub fn bounce_to(&mut self, end_point: units::Position, now: units::Time, end_time: units::Time)
        ensures
            fix_sub(end_time@, now@) != 0 ==> {
                &&& final(self).spec_position().x@ == pos_at(
                    old(self).spec_position().x@,
                    old(self).spec_velocity().x@,
                    old(self).spec_time()@,
                    now@,
                )
                &&& final(self).spec_position().y@ == pos_at(
                    old(self).spec_position().y@,
                    old(self).spec_velocity().y@,
                    old(self).spec_time()@,
                    now@,
                )
                &&& final(self).spec_time() == now
            },
            fix_sub(end_time@, now@) == 0 ==> final(self).spec_time()@ == 0,
    {
        *self = self.split_to(end_point, now, end_time);
    }

    /// Stops this body where it stands at `now`.
    pub fn freeze(&mut self, now: units::Time)
        ensures
            final(self).spec_position().x@ == pos_at(
                old(self).spec_position().x@,
                old(self).spec_velocity().x@,
                old(self).spec_time()@,
                now@,
            ),
            final(self).spec_position().y@ == pos_at(
                old(self).spec_position().y@,
                old(self).spec_velocity().y@,
                old(self).spec_time()@,
                now@,
            ),
            final(self).spec_velocity().x@ == 0 && final(self).spec_velocity().y@ == 0,
            final(self).spec_time() == now,
    {
        self.bounce(Default::default(), now);
    }
}

impl PartialEq for Body {
    /// Bodies are equal when they describe the same trajectory by raw
    /// value: equal anchored positions and velocities, and, unless both
    /// stand still, equal anchor times.  A resting body's anchor time is
    /// immaterial, so re-freezing a still body changes nothing observable.
    fn eq(&self, other: &Body) -> (r: bool) {
        let pos_eq: bool = self.last_position == other.last_position;
        let vel_eq: bool = self.current_velocity == other.current_velocity;
        let time_eq: bool = self.last_time == other.last_time;
        let still: bool = self.current_velocity == Default::default();
        pos_eq && vel_eq && (still || time_eq)
    }
}

impl Eq for Body {

}

impl vstd::std_specs::cmp::PartialEqSpecImpl for Body {
    open spec fn obeys_eq_spec() -> bool {
        true
    }

    open spec fn eq_spec(&self, other: &Body) -> bool {
        body_equiv(*self, *other)
    }
}

// ---------------------------------------------------------------------------
// Cached collision entries and the broad/narrow-phase solver
// ---------------------------------------------------------------------------

/// What the collision index caches per tracked entity: the body, its
/// speed and radius, and where that entity stands in the march schedule.
#[derive(Clone, Copy)]
pub struct CollisionBody {
    pub body: Body,
    pub speed: units::Speed,
    pub physics_state: PhysicsState,
    pub radius: units::Distance,
}

/// Where an entity stands in the march schedule: not scheduled, expecting
/// a march check at a time, or re-checking one instant after a bounce.
#[derive(Clone, Copy, PartialEq, Eq, Structural, Debug)]
pub enum PhysicsState {
    NoMarch,
    March(units::Time),
    Bounce(units::Time),
}

/// What the broad phase concludes about a pair.
#[derive(Clone, Copy, PartialEq, Eq, Structural, Debug)]
pub enum MarchResult {
    /// Far apart: they cannot touch before this time.
    March(units::Time),
    /// Close: they overlap between these times.
    Collide(units::Time, units::Time),
    /// Close, but the trajectories never touch.
    Miss,
    /// Same velocity and touching: nothing changes until a relocation.
    StableContact,
    /// Same velocity and apart: nothing changes until a relocation.
    StableMiss,
}

/// What the narrow phase concludes about a pair.
#[derive(Clone, Copy, PartialEq, Eq, Structural, Debug)]
pub enum CollideResult {
    /// The trajectories pass within the radius sum between these times;
    /// absent bounds mean the contact never starts or never ends.
    Collision(Option<units::Time>, Option<units::Time>),
    /// The trajectories never pass within the radius sum.
    Miss,
}

/// Raw value of one coordinate of `b` extrapolated to time `t`.
pub open spec fn body_x_at(b: Body, t: units::Time) -> int {
    pos_at(b.spec_position().x@, b.spec_velocity().x@, b.spec_time()@, t@)
}

/// Raw value of the other coordinate of `b` extrapolated to time `t`.
pub open spec fn body_y_at(b: Body, t: units::Time) -> int {
    pos_at(b.spec_position().y@, b.spec_velocity().y@, b.spec_time()@, t@)
}

/// The later of the two bodies' anchor times: the common reference frame
/// of the narrow phase, the same whichever body comes first.
pub open spec fn spec_ref_time(one: CollisionBody, other: CollisionBody) -> units::Time {
    if one.body.spec_time()@ >= other.body.spec_time()@ {
        one.body.spec_time()
    } else {
        other.body.spec_time()
    }
}

/// Squared relative speed of the pair, in the frame of `other`.
pub open spec fn spec_rel_vel_squared(one: CollisionBody, other: CollisionBody) -> int {
    crate::math::vec_squared(
        fix_sub(one.body.spec_velocity().x@, other.body.spec_velocity().x@),
        fix_sub(one.body.spec_velocity().y@, other.body.spec_velocity().y@),
    )
}

/// Whether the pair overlaps at time `t`: squared separation no more than
/// the squared radius sum.
pub open spec fn spec_touching_at(one: CollisionBody, other: CollisionBody, t: units::Time) -> bool {
    let dx = fix_sub(body_x_at(one.body, t), body_x_at(other.body, t));
    let dy = fix_sub(body_y_at(one.body, t), body_y_at(other.body, t));
    let coll_dist = fix_add(one.radius@, other.radius@);
    !(fix_mul(coll_dist, coll_dist) < crate::math::vec_squared(dx, dy))
}

/// The narrow-phase result, step for step as the solver computes it, in
/// the reference frame anchored at `spec_ref_time`.
#[verifier::opaque]
pub open spec fn spec_collision_linear(one: CollisionBody, other: CollisionBody) -> CollideResult {
    let time = spec_ref_time(one, other);
    let px = fix_sub(body_x_at(one.body, time), body_x_at(other.body, time));
    let py = fix_sub(body_y_at(one.body, time), body_y_at(other.body, time));
    let vx = fix_sub(one.body.spec_velocity().x@, other.body.spec_velocity().x@);
    let vy = fix_sub(one.body.spec_velocity().y@, other.body.spec_velocity().y@);
    let inner = crate::math::vec_inner(px, py, vx, vy);
    let vsq = crate::math::vec_squared(vx, vy);
    let near_time = fix_div(fix_neg(inner), vsq);
    let coll_dist = fix_add(one.radius@, other.radius@);
    let nx = fix_add(px, fix_mul(vx, near_time));
    let ny = fix_add(py, fix_mul(vy, near_time));
    if fix_mul(coll_dist, coll_dist) < crate::math::vec_squared(nx, ny) {
        CollideResult::Miss
    } else {
        let diff_squared = fix_add(
            fix_div(
                fix_sub(fix_mul(coll_dist, coll_dist), crate::math::vec_squared(px, py)),
                vsq,
            ),
            fix_mul(near_time, near_time),
        );
        let diff = crate::math::spec_sqrt_bits(diff_squared);
        let contact_time = fix_sub(fix_add(time@, near_time), diff);
        let release_time = fix_add(fix_add(fix_add(time@, near_time), diff), 1);
        CollideResult::Collision(
            Some(units::Time { bits: contact_time as i64 }),
            Some(units::Time { bits: release_time as i64 }),
        )
    }
}

/// The broad-phase result, step for step as the solver computes it.
#[verifier::opaque]
pub open spec fn spec_march_result(
    one: CollisionBody,
    other: CollisionBody,
    time: units::Time,
) -> MarchResult {
    if one.body.spec_velocity() == other.body.spec_velocity() || spec_rel_vel_squared(one, other)
        == 0 {
        if spec_touching_at(one, other, time) {
            MarchResult::StableContact
        } else {
            MarchResult::StableMiss
        }
    } else {
        let dx = fix_sub(body_x_at(one.body, time), body_x_at(other.body, time));
        let dy = fix_sub(body_y_at(one.body, time), body_y_at(other.body, time));
        let centre_dist_squared = crate::math::vec_squared(dx, dy);
        let proximity = fix_add(fix_add(one.radius@, other.radius@), 327680int);
        if centre_dist_squared < fix_mul(proximity, proximity) {
            match spec_collision_linear(one, other) {
                CollideResult::Collision(t, u) => MarchResult::Collide(t.unwrap(), u.unwrap()),
                CollideResult::Miss => MarchResult::Miss,
            }
        } else {
            let speed_sum = fix_add(one.speed@, other.speed@);
            if speed_sum == 0 {
                MarchResult::StableMiss
            } else {
                let centre_dist = crate::math::spec_sqrt_bits(centre_dist_squared);
                let edge_dist = fix_sub(fix_sub(centre_dist, one.radius@), other.radius@);
                let march_time = fix_div(edge_dist, speed_sum);
                MarchResult::March(units::Time { bits: fix_add(time@, march_time) as i64 })
            }
        }
    }
}

/// The edge-to-edge distance at which ray-marching and the precise
/// narrow phase are considered equally preferable: a tunable margin
/// trading check frequency against the risk of skipping fast motion.
pub fn march_threshold() -> (r: units::Distance)
    ensures
        r@ == 5 * 65536,
{
    crate::math::Scalar::from(5)
}

/// Narrow phase for a pair with equal velocities, judged at `time`: the
/// separation never changes, so a single comparison settles contact.
pub fn collision_stationary(one: &CollisionBody, other: &CollisionBody, time: units::Time) -> (r:
    CollideResult)
    ensures
        r == (if spec_touching_at(*one, *other, time) {
            CollideResult::Collision(None, None)
        } else {
            CollideResult::Miss
        }),
{
    let coll_dist: units::Distance = one.radius + other.radius;
    let centre_disp: units::Displacement = one.body.position(time) - other.body.position(time);
    if coll_dist.squared() < centre_disp.squared() {
        CollideResult::Miss
    } else {
        CollideResult::Collision(None, None)
    }
}

/// Continuous narrow-phase collision for a pair whose velocities differ:
/// in one body's reference frame, the time of closest approach follows
/// from the separation being orthogonal to the relative velocity there,
/// and completing the square in `(p + v t)^2 = d^2` gives the entry and
/// exit times around it.  The exit gains one instant so that a contact
/// window is never empty.
pub fn collision_linear(one: &CollisionBody, other: &CollisionBody) -> (r: CollideResult)
    requires
        spec_rel_vel_squared(*one, *other) != 0,
    ensures
        r == spec_collision_linear(*one, *other),
{
    proof {
        reveal(spec_collision_linear);
    }
    // the later anchor wins, so swapping the arguments keeps the frame
    let time: units::Time = if other.body.last_time < one.body.last_time {
        one.body.last_time
    } else {
        other.body.last_time
    };
    let rel_pos: units::Displacement = one.body.position(time) - other.body.position(time);
    let rel_vel: units::Velocity = one.body.velocity() - other.body.velocity();

    // the time at which the bodies pass closest, from assuming that
    // `p + v t` is orthogonal to `v` there
    let inner: units::Scalar = units::Vector::inner(rel_pos, rel_vel);
    let near_time: units::Duration = inner.neg() / rel_vel.squared();

    // they collide when no room is left between their boundaries
    let coll_dist: units::Distance = one.radius + other.radius;
    let near: units::Displacement = rel_pos + rel_vel * near_time;
    if coll_dist.squared() < near.squared() {
        CollideResult::Miss
    } else {
        // from completing the square in `(p + v t)^2 = d^2`
        let diff_squared: units::Scalar = (coll_dist.squared() - rel_pos.squared())
            / rel_vel.squared() + near_time.squared();
        let diff: units::Duration = diff_squared.sqrt();
        let contact_time: units::Time = time + near_time - diff;
        let release_time: units::Time = time + near_time + diff + crate::units::instants(1);
        CollideResult::Collision(Some(contact_time), Some(release_time))
    }
}

/// Broad phase for a pair, judged at `time`.  Equal (or immeasurably
/// close) velocities give a permanent verdict, revisited only on
/// relocation.  A close pair goes to the narrow phase.  A distant pair
/// gets a march deadline: the edge distance over the closing speed is a
/// safe lower bound on the time either could cross the margin, unless
/// both speeds round to nothing, in which case the pair is as good as
/// frozen.
#[verifier::rlimit(100)]
pub fn march_result(one: &CollisionBody, other: &CollisionBody, time: units::Time) -> (r:
    MarchResult)
    ensures
        r == spec_march_result(*one, *other, time),
{
    proof {
        reveal(spec_march_result);
        reveal(spec_collision_linear);
    }
    let rel_vel: units::Velocity = one.body.velocity() - other.body.velocity();
    if one.body.velocity() == other.body.velocity() || rel_vel.squared().into_bits() == 0 {
        return match collision_stationary(one, other, time) {
            CollideResult::Collision(_, _) => MarchResult::StableContact,
            CollideResult::Miss => MarchResult::StableMiss,
        };
    }
    let one_pos: units::Position = one.body.position(time);
    let other_pos: units::Position = other.body.position(time);
    let centre_dist_squared: units::Scalar = (one_pos - other_pos).squared();

    // the maximum distance for testing collision exactly
    let proximity: units::Distance = one.radius + other.radius + march_threshold();

    if centre_dist_squared < proximity.squared() {
        match collision_linear(one, other) {
            CollideResult::Collision(t_opt, u_opt) => {
                let t: units::Time = t_opt.unwrap();
                let u: units::Time = u_opt.unwrap();
                MarchResult::Collide(t, u)
            },
            CollideResult::Miss => MarchResult::Miss,
        }
    } else {
        let speed_sum: units::Speed = one.speed + other.speed;
        if speed_sum.into_bits() == 0 {
            // both speeds round to nothing: closing slower than the rough
            // square root resolves, the pair gets no re-check until a
            // relocation -- a consequence of the margin tunables
            MarchResult::StableMiss
        } else {
            let centre_dist: units::Scalar = centre_dist_squared.rough_sqrt();
            // stop just inside the threshold, not at the boundary
            let edge_dist: units::Scalar = centre_dist - one.radius - other.radius;
            let march_time: units::Duration = edge_dist / speed_sum;
            MarchResult::March(time + march_time)
        }
    }
}

// ---------------------------------------------------------------------------
// Laws
// ---------------------------------------------------------------------------

/// Two bodies at rest at one position are the same trajectory to every
/// observer, whenever each was anchored; bodies that move must also
/// share their anchor time to count as equal.
pub proof fn lemma_body_equality(a: Body, b: Body)
    ensures
        (a.spec_velocity().x@ == 0 && a.spec_velocity().y@ == 0 && a.spec_velocity()
            == b.spec_velocity() && a.spec_position() == b.spec_position()) ==> body_equiv(a, b),
        (!(a.spec_velocity().x@ == 0 && a.spec_velocity().y@ == 0) && a.spec_time()
            != b.spec_time()) ==> !body_equiv(a, b),
{
}

/// The narrow phase does not care which body comes first: whenever both
/// argument orders report a collision, the entry and exit times agree
/// exactly.  The relative position and velocity must stay clear of the
/// wrapping boundary, where negation folds onto itself.
pub proof fn lemma_collision_linear_symmetric(a: CollisionBody, b: CollisionBody)
    requires
        ({
            let t = spec_ref_time(a, b);
            &&& fix_sub(body_x_at(a.body, t), body_x_at(b.body, t)) != i64::MIN
            &&& fix_sub(body_y_at(a.body, t), body_y_at(b.body, t)) != i64::MIN
            &&& fix_sub(a.body.spec_velocity().x@, b.body.spec_velocity().x@) != i64::MIN
            &&& fix_sub(a.body.spec_velocity().y@, b.body.spec_velocity().y@) != i64::MIN
        }),
    ensures
        match (spec_collision_linear(a, b), spec_collision_linear(b, a)) {
            (
                CollideResult::Collision(t1, u1),
                CollideResult::Collision(t2, u2),
            ) => t1 == t2 && u1 == u2,
            _ => true,
        },
{
    reveal(spec_collision_linear);
    let t = spec_ref_time(a, b);
    assert(spec_ref_time(b, a) == t);
    let px = fix_sub(body_x_at(a.body, t), body_x_at(b.body, t));
    let py = fix_sub(body_y_at(a.body, t), body_y_at(b.body, t));
    let vx = fix_sub(a.body.spec_velocity().x@, b.body.spec_velocity().x@);
    let vy = fix_sub(a.body.spec_velocity().y@, b.body.spec_velocity().y@);
    let qx = fix_sub(body_x_at(b.body, t), body_x_at(a.body, t));
    let qy = fix_sub(body_y_at(b.body, t), body_y_at(a.body, t));
    let wx = fix_sub(b.body.spec_velocity().x@, a.body.spec_velocity().x@);
    let wy = fix_sub(b.body.spec_velocity().y@, a.body.spec_velocity().y@);
    lemma_wrap_negation(body_x_at(a.body, t), body_x_at(b.body, t));
    lemma_wrap_negation(body_y_at(a.body, t), body_y_at(b.body, t));
    lemma_wrap_negation(a.body.spec_velocity().x@, b.body.spec_velocity().x@);
    lemma_wrap_negation(a.body.spec_velocity().y@, b.body.spec_velocity().y@);
    assert(qx == -px && qy == -py && wx == -vx && wy == -vy);
    assert(qx * wx == px * vx && qy * wy == py * vy) by (nonlinear_arith)
        requires
            qx == -px && qy == -py && wx == -vx && wy == -vy,
    ;
    assert(qx * qx == px * px && qy * qy == py * py && wx * wx == vx * vx && wy * wy == vy * vy)
        by (nonlinear_arith)
        requires
            qx == -px && qy == -py && wx == -vx && wy == -vy,
    ;
    assert(crate::math::vec_inner(qx, qy, wx, wy) == crate::math::vec_inner(px, py, vx, vy));
    assert(crate::math::vec_squared(wx, wy) == crate::math::vec_squared(vx, vy));
    assert(crate::math::vec_squared(qx, qy) == crate::math::vec_squared(px, py));
}

/// Both wrapped differences of a pair of raw values negate each other
/// exactly, as long as neither sits on the wrapping boundary.
proof fn lemma_wrap_negation(x: int, y: int)
    requires
        i64::MIN <= x <= i64::MAX,
        i64::MIN <= y <= i64::MAX,
        fix_sub(x, y) != i64::MIN,
    ensures
        fix_sub(y, x) == -fix_sub(x, y),
{
    let period: int = 0x1_0000_0000_0000_0000;
    let d: int = x - y;
    if d > i64::MAX {
        assert(fix_sub(x, y) == d - period) by {
            vstd::arithmetic::div_mod::lemma_small_mod(
                (d + 0x8000_0000_0000_0000 - period) as nat,
                period as nat,
            );
            vstd::arithmetic::div_mod::lemma_mod_add_multiples_vanish(
                d + 0x8000_0000_0000_0000 - period,
                period,
            );
        };
        assert(fix_sub(y, x) == -d + period) by {
            vstd::arithmetic::div_mod::lemma_small_mod(
                (-d + period + 0x8000_0000_0000_0000) as nat,
                period as nat,
            );
            vstd::arithmetic::div_mod::lemma_mod_add_multiples_vanish(
                -d + 0x8000_0000_0000_0000,
                period,
            );
        };
    } else if d < i64::MIN {
        assert(fix_sub(x, y) == d + period) by {
            vstd::arithmetic::div_mod::lemma_small_mod(
                (d + 0x8000_0000_0000_0000 + period) as nat,
                period as nat,
            );
            vstd::arithmetic::div_mod::lemma_mod_add_multiples_vanish(
                d + 0x8000_0000_0000_0000,
                period,
            );
        };
        assert(fix_sub(y, x) == -d - period) by {
            vstd::arithmetic::div_mod::lemma_small_mod(
                (-d - period + 0x8000_0000_0000_0000) as nat,
                period as nat,
            );
            vstd::arithmetic::div_mod::lemma_mod_add_multiples_vanish(
                -d - period + 0x8000_0000_0000_0000,
                period,
            );
        };
    } else {
        assert(fix_sub(x, y) == d) by {
            vstd::arithmetic::div_mod::lemma_small_mod(
                (d + 0x8000_0000_0000_0000) as nat,
                period as nat,
            );
        };
        if -d > i64::MAX {
            assert(d == i64::MIN);
            assert(fix_sub(x, y) != i64::MIN);
            assert(false);
        }
        assert(fix_sub(y, x) == -d) by {
            vstd::arithmetic::div_mod::lemma_small_mod(
                (-d + 0x8000_0000_0000_0000) as nat,
                period as nat,
            );
        };
    }
}

/// A value divisible by a positive factor is that factor times its own
/// quotient.
proof fn lemma_exact_div(x: int, d: int)
    requires
        d > 0,
        x % d == 0,
    ensures
        d * (x / d) == x,
{
    vstd::arithmetic::div_mod::lemma_fundamental_div_mod(x, d);
}

/// For constant velocity, positions interpolate linearly: across any
/// three ordered instants, the displacement over the later span is the
/// displacement over the earlier span scaled by the ratio of the spans.
/// Stated per coordinate over raw values, for inputs whose products
/// stay within range and land exactly on the fixed-point grid; the
/// rounding of other inputs breaks the identity by fractions of a bit.
pub proof fn lemma_constant_velocity_interpolation(
    p: int,
    v: int,
    t0: int,
    t1: int,
    t2: int,
    t3: int,
)
    requires
        abs1(p) <= 0x2000_0000_0000,
        abs1(v) <= 0x4000_0000,
        abs1(t0) <= 0x4000_0000,
        abs1(t1) <= 0x4000_0000,
        abs1(t2) <= 0x4000_0000,
        abs1(t3) <= 0x4000_0000,
        t1 < t2 < t3,
        (v * (t1 - t0)) % 65536 == 0,
        (v * (t2 - t0)) % 65536 == 0,
        (v * (t3 - t0)) % 65536 == 0,
        (((v * (t2 - t0) - v * (t1 - t0)) / 65536) * (t3 - t2)) % 65536 == 0,
    ensures
        fix_sub(pos_at(p, v, t0, t3), pos_at(p, v, t0, t2)) == fix_div(
            fix_mul(fix_sub(pos_at(p, v, t0, t2), pos_at(p, v, t0, t1)), fix_sub(t3, t2)),
            fix_sub(t2, t1),
        ),
{
    let d1 = t1 - t0;
    let d2 = t2 - t0;
    let d3 = t3 - t0;
    assert(abs1(v * d1) <= 0x2000_0000_0000_0000 && abs1(v * d2) <= 0x2000_0000_0000_0000 && abs1(
        v * d3,
    ) <= 0x2000_0000_0000_0000) by (nonlinear_arith)
        requires
            abs1(v) <= 0x4000_0000,
            abs1(t0) <= 0x4000_0000,
            abs1(t1) <= 0x4000_0000,
            abs1(t2) <= 0x4000_0000,
            abs1(t3) <= 0x4000_0000,
            d1 == t1 - t0 && d2 == t2 - t0 && d3 == t3 - t0,
    ;
    lemma_exact_div(v * d1, 65536);
    lemma_exact_div(v * d2, 65536);
    lemma_exact_div(v * d3, 65536);
    let q1 = (v * d1) / 65536;
    let q2 = (v * d2) / 65536;
    let q3 = (v * d3) / 65536;
    assert(abs1(q1) <= 0x2000_0000_0000 && abs1(q2) <= 0x2000_0000_0000 && abs1(q3)
        <= 0x2000_0000_0000) by (nonlinear_arith)
        requires
            65536 * q1 == v * d1 && 65536 * q2 == v * d2 && 65536 * q3 == v * d3,
            abs1(v * d1) <= 0x2000_0000_0000_0000,
            abs1(v * d2) <= 0x2000_0000_0000_0000,
            abs1(v * d3) <= 0x2000_0000_0000_0000,
    ;
    // the three positions, exactly
    lemma_wrap_i64_id(d1);
    lemma_wrap_i64_id(d2);
    lemma_wrap_i64_id(d3);
    lemma_wrap_i64_id(q1);
    lemma_wrap_i64_id(q2);
    lemma_wrap_i64_id(q3);
    lemma_wrap_i64_id(p + q1);
    lemma_wrap_i64_id(p + q2);
    lemma_wrap_i64_id(p + q3);
    assert(pos_at(p, v, t0, t1) == p + q1);
    assert(pos_at(p, v, t0, t2) == p + q2);
    assert(pos_at(p, v, t0, t3) == p + q3);
    // the left-hand side: the displacement over the later span
    let k2 = q3 - q2;
    lemma_wrap_i64_id(k2);
    assert(fix_sub(pos_at(p, v, t0, t3), pos_at(p, v, t0, t2)) == k2);
    // the right-hand side, step by step
    let k1 = q2 - q1;
    lemma_wrap_i64_id(k1);
    assert(fix_sub(pos_at(p, v, t0, t2), pos_at(p, v, t0, t1)) == k1);
    lemma_wrap_i64_id(t3 - t2);
    lemma_wrap_i64_id(t2 - t1);
    assert(fix_sub(t3, t2) == t3 - t2);
    assert(fix_sub(t2, t1) == t2 - t1);
    assert((k1 * (t3 - t2)) % 65536 == 0) by {
        assert(k1 == (v * d2 - v * d1) / 65536) by {
            assert(65536 * (q2 - q1) == v * d2 - v * d1) by (nonlinear_arith)
                requires
                    65536 * q1 == v * d1 && 65536 * q2 == v * d2,
            ;
            lemma_exact_div(v * d2 - v * d1, 65536);
            assert((v * d2 - v * d1) % 65536 == 0) by {
                vstd::arithmetic::div_mod::lemma_fundamental_div_mod_converse(
                    v * d2 - v * d1,
                    65536,
                    q2 - q1,
                    0,
                );
            };
        };
    };
    lemma_exact_div(k1 * (t3 - t2), 65536);
    let mres = (k1 * (t3 - t2)) / 65536;
    assert(abs1(k1 * (t3 - t2)) <= 0x2000_0000_0000_0000_0000) by (nonlinear_arith)
        requires
            abs1(q1) <= 0x2000_0000_0000 && abs1(q2) <= 0x2000_0000_0000,
            k1 == q2 - q1,
            abs1(t2) <= 0x4000_0000 && abs1(t3) <= 0x4000_0000,
    ;
    assert(abs1(mres) <= 0x2000_0000_0000_0000) by (nonlinear_arith)
        requires
            65536 * mres == k1 * (t3 - t2),
            abs1(k1 * (t3 - t2)) <= 0x2000_0000_0000_0000_0000,
    ;
    lemma_wrap_i64_id(mres);
    assert(fix_mul(k1, t3 - t2) == mres);
    // cancelling the earlier span out of the quotient
    assert(mres * 65536 == k1 * (t3 - t2)) by (nonlinear_arith)
        requires
            65536 * mres == k1 * (t3 - t2),
    ;
    assert(k1 * (t3 - t2) == (t2 - t1) * k2) by {
        assert(65536 * (k1 * (t3 - t2)) == 65536 * ((t2 - t1) * k2)) by (nonlinear_arith)
            requires
                65536 * q1 == v * d1 && 65536 * q2 == v * d2 && 65536 * q3 == v * d3,
                k1 == q2 - q1 && k2 == q3 - q2,
                d1 == t1 - t0 && d2 == t2 - t0 && d3 == t3 - t0,
        ;
        assert(k1 * (t3 - t2) == (t2 - t1) * k2) by (nonlinear_arith)
            requires
                65536 * (k1 * (t3 - t2)) == 65536 * ((t2 - t1) * k2),
        ;
    };
    assert(trunc_div(mres * 65536, t2 - t1) == k2) by {
        if k2 >= 0 {
            vstd::arithmetic::div_mod::lemma_div_multiples_vanish(k2, t2 - t1);
        } else {
            assert(-(mres * 65536) == (t2 - t1) * (-k2)) by (nonlinear_arith)
                requires
                    mres * 65536 == (t2 - t1) * k2,
            ;
            vstd::arithmetic::div_mod::lemma_div_multiples_vanish(-k2, t2 - t1);
            assert(abs1(mres * 65536) == (t2 - t1) * (-k2)) by (nonlinear_arith)
                requires
                    -(mres * 65536) == (t2 - t1) * (-k2),
                    t2 - t1 > 0,
                    k2 < 0,
            ;
        }
    };
    lemma_wrap_i64_id(k2);
    assert(fix_div(mres, t2 - t1) == k2);
}

} // verus!

//! Asteroids: where they appear, how they home in on the ship, and when they
//! hit it.

use vstd::prelude::*;
use crate::key::{decimal, decimal_text};
use crate::vector::{Vec3, Vector};

verus! {

/// Microseconds in a second, and millionths in a whole.
pub const MILLION: u64 = 1_000_000;

/// Radius, in world units, of the ring around the origin on which asteroids
/// appear.
pub const RING_RADIUS: i64 = 800;

/// An asteroid hits the ship when their distance is less than this many
/// times the asteroid's radius.
pub const HIT_RANGE_FACTOR: u32 = 600;

/// The direction of an angle: its cosine and its sine, in millionths.
#[derive(Clone, Copy, Debug, PartialEq, Eq, Structural)]
pub struct Heading {
    pub cos: i32,
    pub sin: i32,
}

/// The point of the ring that lies in direction `heading` from the origin.
pub open spec fn ring_position(heading: Heading) -> Vector {
    Vector { x: heading.cos * RING_RADIUS, y: heading.sin * RING_RADIUS, z: 0 }
}

/// A heading of length one, that is, one whose squares add up to a million
/// squared, leads to a point at the ring's distance from the origin.
pub proof fn lemma_ring_position_on_ring(heading: Heading)
    requires
        heading.cos * heading.cos + heading.sin * heading.sin == MILLION * MILLION,
    ensures
        ring_position(heading).norm_sq() == (RING_RADIUS * MILLION) * (RING_RADIUS * MILLION),
        ring_position(heading).z == 0,
{
    let c = heading.cos as int;
    let s = heading.sin as int;
    assert((c * 800) * (c * 800) + (s * 800) * (s * 800) + 0 * 0 == (800 * 1_000_000) * (800
        * 1_000_000)) by (nonlinear_arith)
        requires
            c * c + s * s == 1_000_000 * 1_000_000,
    ;
}

/// The distance below which an asteroid of the given radius hits the ship.
pub open spec fn hit_range(radius: int) -> int {
    HIT_RANGE_FACTOR * radius
}

/// Whether an asteroid of the given radius at `mesh` hits a ship at `ship`:
/// their Euclidean distance is less than the hit range. A distance is never
/// negative, so that is the case exactly when the range is positive and the
/// square of the distance is less than the square of the range.
pub open spec fn collides(ship: Vector, mesh: Vector, radius: int) -> bool {
    &&& hit_range(radius) > 0
    &&& ship.minus(mesh).norm_sq() < hit_range(radius) * hit_range(radius)
}

/// How far an asteroid moves along one axis in `dt` microseconds when the
/// ship is `gap` away on that axis: the fraction `dt / 1_000_000` of the gap,
/// rounded toward zero.
pub open spec fn approach(gap: int, dt: int) -> int {
    if gap >= 0 {
        (gap * dt) / (MILLION as int)
    } else {
        -(((-gap) * dt) / (MILLION as int))
    }
}

/// Where an asteroid at `mesh` is after homing in on `target` for `dt`
/// microseconds.
pub open spec fn followed(mesh: Vector, target: Vector, dt: int) -> Vector {
    Vector {
        x: mesh.x + approach(target.x - mesh.x, dt),
        y: mesh.y + approach(target.y - mesh.y, dt),
        z: mesh.z + approach(target.z - mesh.z, dt),
    }
}

/// The test of `collides` is the test of the Euclidean distance against the
/// hit range: a whole number `d` that is at most the distance is below the
/// range whenever there is a hit, one that is at least the distance and below
/// the range makes a hit, and where the distance is itself a whole number
/// `d`, there is a hit if and only if `d` is below the range.
pub proof fn lemma_collision_is_distance_test(ship: Vector, mesh: Vector, radius: int, d: int)
    requires
        d >= 0,
    ensures
        d * d <= ship.minus(mesh).norm_sq() && collides(ship, mesh, radius) ==> d < hit_range(
            radius,
        ),
        ship.minus(mesh).norm_sq() <= d * d && d < hit_range(radius) ==> collides(
            ship,
            mesh,
            radius,
        ),
        d * d == ship.minus(mesh).norm_sq() ==> (collides(ship, mesh, radius) <==> d < hit_range(
            radius,
        )),
{
    let range = hit_range(radius);
    assert(d < range ==> d * d < range * range) by (nonlinear_arith)
        requires
            d >= 0,
    ;
    assert(d >= range && range > 0 ==> d * d >= range * range) by (nonlinear_arith);
}

/// Without a positive radius an asteroid hits nothing, and with one it hits
/// whatever sits exactly on its mesh.
pub proof fn lemma_collision_at_rest(ship: Vector, mesh: Vector, radius: int)
    ensures
        radius <= 0 ==> !collides(ship, mesh, radius),
        radius > 0 ==> collides(mesh, mesh, radius),
{
    let range = hit_range(radius);
    assert(radius > 0 ==> range * range > 0) by (nonlinear_arith)
        requires
            range == 600 * radius,
    ;
}

/// Within a second an asteroid does not overshoot: on each axis its step
/// points toward the ship and is no longer than the gap. In no time at all
/// it does not move, and in exactly one second it arrives.
pub proof fn lemma_approach_within_a_second(gap: int, dt: int)
    requires
        0 <= dt <= MILLION,
    ensures
        gap >= 0 ==> 0 <= approach(gap, dt) <= gap,
        gap <= 0 ==> gap <= approach(gap, dt) <= 0,
        approach(gap, 0) == 0,
        approach(gap, MILLION as int) == gap,
{
    let size = if gap >= 0 { gap } else { -gap };
    assert(0 <= size * dt <= size * 1_000_000) by (nonlinear_arith)
        requires
            0 <= size,
            0 <= dt <= 1_000_000,
    ;
    assert(size * 0 == 0) by (nonlinear_arith);
}

/// Homing for at most a second keeps an asteroid between where it was and
/// where the ship is, so its new position fits whenever both of those do.
pub proof fn lemma_follow_fits_within_a_second(mesh: Vector, target: Vector, dt: int)
    requires
        0 <= dt <= MILLION,
        mesh.representable(),
        target.representable(),
    ensures
        followed(mesh, target, dt).representable(),
        followed(mesh, target, 0) == mesh,
        followed(mesh, target, MILLION as int) == target,
{
    lemma_approach_within_a_second(target.x - mesh.x, dt);
    lemma_approach_within_a_second(target.y - mesh.y, dt);
    lemma_approach_within_a_second(target.z - mesh.z, dt);
}

/// An asteroid. Its position is kept with its mesh, not here.
#[derive(Clone, Copy, Debug, PartialEq, Eq, Structural)]
pub struct Asteroid {
    /// Identifier, by which the asteroid's mesh is found.
    pub i: i32,
    /// Radius, in millionths of a world unit.
    pub radius: u32,
    /// Set once the asteroid has hit the ship. A dead asteroid stays where
    /// it is.
    pub dead: bool,
}

/// The step of `approach` from `from` toward `to`.
fn approach_step(from: i64, to: i64, dt: u64) -> (step: i128)
    ensures
        step == approach(to - from, dt as int),
        -0x1_0000_0000_0000_0000_0000_0000_0000 <= step <= 0x1_0000_0000_0000_0000_0000_0000_0000,
{
    let toward: bool = to >= from;
    let gap: u128 = if toward {
        (to as i128 - from as i128) as u128
    } else {
        (from as i128 - to as i128) as u128
    };
    // The product of the gap and `dt` may be too wide to hold. The whole
    // seconds of `dt` divide out exactly, so only the rest is divided.
    let seconds: u128 = (dt / MILLION) as u128;
    let rest: u128 = (dt % MILLION) as u128;
    proof {
        assert(gap * seconds <= 0xffff_ffff_ffff_ffff * 18_446_744_073_709) by (nonlinear_arith)
            requires
                0 <= gap <= 0xffff_ffff_ffff_ffff,
                0 <= seconds <= 18_446_744_073_709,
        ;
        assert(gap * rest <= 0xffff_ffff_ffff_ffff * 1_000_000) by (nonlinear_arith)
            requires
                0 <= gap <= 0xffff_ffff_ffff_ffff,
                0 <= rest <= 1_000_000,
        ;
        assert(gap * rest >= 0 && gap * seconds >= 0) by (nonlinear_arith)
            requires
                0 <= gap,
                0 <= seconds,
                0 <= rest,
        ;
        assert(gap * dt == (gap * seconds) * 1_000_000 + gap * rest) by (nonlinear_arith)
            requires
                dt == seconds * 1_000_000 + rest,
        ;
    }
    let whole: u128 = gap * seconds + (gap * rest) / (MILLION as u128);
    if toward {
        whole as i128
    } else {
        -(whole as i128)
    }
}

impl Asteroid {
    /// Whether `follow` can move an asteroid's mesh from `mesh` toward
    /// `target`: a live asteroid's new position has to fit the coordinates.
    pub open spec fn follow_fits(self, mesh: Vector, target: Vector, dt: int) -> bool {
        !self.dead ==> followed(mesh, target, dt).representable()
    }

    /// A new, live asteroid with identifier `i` and the given radius, and the
    /// position of its mesh: the point of the ring in direction `heading`.
    pub fn new(i: i32, radius: u32, heading: Heading) -> (made: (Asteroid, Vec3))
        ensures
            made.0 == (Asteroid { i, radius, dead: false }),
            made.1@ == ring_position(heading),
    {
        let mesh = Vec3 {
            x: (heading.cos as i64) * RING_RADIUS,
            y: (heading.sin as i64) * RING_RADIUS,
            z: 0,
        };
        (Asteroid { i, radius, dead: false }, mesh)
    }

    /// The name of the asteroid's mesh: its identifier, written in decimal.
    pub fn key(&self) -> (name: String)
        ensures
            name@ == decimal(self.i as int),
    {
        decimal_text(self.i)
    }

    /// Whether `follow` can be called with these arguments.
    pub fn can_follow(&self, mesh: Vec3, position: Vec3, dt: u64) -> (fits: bool)
        ensures
            fits == self.follow_fits(mesh@, position@, dt as int),
    {
        if self.dead {
            return true;
        }
        let x = mesh.x as i128 + approach_step(mesh.x, position.x, dt);
        let y = mesh.y as i128 + approach_step(mesh.y, position.y, dt);
        let z = mesh.z as i128 + approach_step(mesh.z, position.z, dt);
        i64::MIN as i128 <= x && x <= i64::MAX as i128 && i64::MIN as i128 <= y && y
            <= i64::MAX as i128 && i64::MIN as i128 <= z && z <= i64::MAX as i128
    }

    /// Tests whether the asteroid, whose mesh is at `mesh`, hits a ship at
    /// `position`, and marks the asteroid dead if it does. A dead asteroid
    /// within range reports a hit again.
    pub fn check_collision(&mut self, position: Vec3, mesh: Vec3) -> (hit: bool)
        ensures
            hit == collides(position@, mesh@, old(self).radius as int),
            final(self).dead == (old(self).dead || hit),
            final(self).i == old(self).i,
            final(self).radius == old(self).radius,
    {
        // A gap of at least the range on one axis rules a hit out. With
        // that settled, the squares below are small enough to add up.
        let range: i128 = (HIT_RANGE_FACTOR as i128) * (self.radius as i128);
        let dx: i128 = position.x as i128 - mesh.x as i128;
        let dy: i128 = position.y as i128 - mesh.y as i128;
        let dz: i128 = position.z as i128 - mesh.z as i128;
        let ax: i128 = if dx < 0 { -dx } else { dx };
        let ay: i128 = if dy < 0 { -dy } else { dy };
        let az: i128 = if dz < 0 { -dz } else { dz };
        proof {
            assert(ax * ax == dx * dx && ay * ay == dy * dy && az * az == dz * dz)
                by (nonlinear_arith)
                requires
                    ax == dx || ax == -dx,
                    ay == dy || ay == -dy,
                    az == dz || az == -dz,
            ;
            assert(dx * dx >= 0 && dy * dy >= 0 && dz * dz >= 0) by (nonlinear_arith);
        }
        if ax >= range || ay >= range || az >= range {
            proof {
                assert(ax >= range ==> ax * ax >= range * range) by (nonlinear_arith)
                    requires
                        range >= 0,
                ;
                assert(ay >= range ==> ay * ay >= range * range) by (nonlinear_arith)
                    requires
                        range >= 0,
                ;
                assert(az >= range ==> az * az >= range * range) by (nonlinear_arith)
                    requires
                        range >= 0,
                ;
            }
            return false;
        }
        proof {
            assert(range * range <= 2_576_980_377_000 * 2_576_980_377_000) by (nonlinear_arith)
                requires
                    0 <= range <= 2_576_980_377_000,
            ;
            assert(ax * ax <= range * range && ay * ay <= range * range && az * az <= range
                * range) by (nonlinear_arith)
                requires
                    0 <= ax < range,
                    0 <= ay < range,
                    0 <= az < range,
            ;
        }
        if ax * ax + ay * ay + az * az < range * range {
            self.dead = true;
            true
        } else {
            false
        }
    }

    /// Drives the asteroid toward `position`: unless it is dead, its mesh
    /// moves by the fraction `dt / 1_000_000` of what separates it from
    /// `position`, on each axis.
    pub fn follow(&self, mesh: &mut Vec3, position: Vec3, dt: u64)
        requires
            self.follow_fits(old(mesh)@, position@, dt as int),
        ensures
            final(mesh)@ == if self.dead {
                old(mesh)@
            } else {
                followed(old(mesh)@, position@, dt as int)
            },
    {
        if !self.dead {
            let sx = approach_step(mesh.x, position.x, dt);
            let sy = approach_step(mesh.y, position.y, dt);
            let sz = approach_step(mesh.z, position.z, dt);
            mesh.x = (mesh.x as i128 + sx) as i64;
            mesh.y = (mesh.y as i128 + sy) as i64;
            mesh.z = (mesh.z as i128 + sz) as i64;
        }
    }
}

} // verus!

//! Points and displacements of the playfield.

use vstd::prelude::*;

verus! {

/// A point or a displacement with unbounded coordinates, in millionths of a
/// world unit. This is the mathematical model of [`Vec3`].
pub struct Vector {
    pub x: int,
    pub y: int,
    pub z: int,
}

impl Vector {
    /// The origin, and the displacement that moves nothing.
    pub open spec fn zero() -> Vector {
        Vector { x: 0, y: 0, z: 0 }
    }

    /// Componentwise sum.
    pub open spec fn plus(self, other: Vector) -> Vector {
        Vector { x: self.x + other.x, y: self.y + other.y, z: self.z + other.z }
    }

    /// Componentwise difference.
    pub open spec fn minus(self, other: Vector) -> Vector {
        Vector { x: self.x - other.x, y: self.y - other.y, z: self.z - other.z }
    }

    /// Every coordinate multiplied by `k`.
    pub open spec fn scaled(self, k: int) -> Vector {
        Vector { x: self.x * k, y: self.y * k, z: self.z * k }
    }

    /// Square of the Euclidean length.
    pub open spec fn norm_sq(self) -> int {
        self.x * self.x + self.y * self.y + self.z * self.z
    }

    /// Whether a [`Vec3`] can hold this vector.
    pub open spec fn representable(self) -> bool {
        &&& i64::MIN <= self.x <= i64::MAX
        &&& i64::MIN <= self.y <= i64::MAX
        &&& i64::MIN <= self.z <= i64::MAX
    }
}

/// A point or a displacement of the playfield, in millionths of a world unit.
#[derive(Clone, Copy, Debug, PartialEq, Eq, Structural)]
pub struct Vec3 {
    pub x: i64,
    pub y: i64,
    pub z: i64,
}

impl View for Vec3 {
    type V = Vector;

    open spec fn view(&self) -> Vector {
        Vector { x: self.x as int, y: self.y as int, z: self.z as int }
    }
}

impl Vec3 {
    /// The point with the given coordinates.
    pub fn new(x: i64, y: i64, z: i64) -> (v: Vec3)
        ensures
            v == (Vec3 { x, y, z }),
    {
        Vec3 { x, y, z }
    }

    /// The origin.
    pub fn zero() -> (v: Vec3)
        ensures
            v@ == Vector::zero(),
    {
        Vec3 { x: 0, y: 0, z: 0 }
    }
}

/// Scaling by zero gives the zero vector, scaling by one changes nothing.
pub proof fn lemma_scaled_unit(v: Vector)
    ensures
        v.scaled(0) == Vector::zero(),
        v.scaled(1) == v,
{
    assert(v.x * 0 == 0 && v.y * 0 == 0 && v.z * 0 == 0) by (nonlinear_arith);
    assert(v.x * 1 == v.x && v.y * 1 == v.y && v.z * 1 == v.z) by (nonlinear_arith);
}

/// Scaling by `k + 1` adds the vector once more.
pub proof fn lemma_scaled_next(v: Vector, k: int)
    ensures
        v.scaled(k + 1) == v.scaled(k).plus(v),
{
    assert(v.x * (k + 1) == v.x * k + v.x) by (nonlinear_arith);
    assert(v.y * (k + 1) == v.y * k + v.y) by (nonlinear_arith);
    assert(v.z * (k + 1) == v.z * k + v.z) by (nonlinear_arith);
}

} // verus!

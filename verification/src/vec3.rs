//! Integer 3-vectors: the position, velocity and acceleration type of the
//! simulation. All arithmetic is exact; callers state the bounds that rule
//! out overflow.

use vstd::prelude::*;

verus! {

/// Largest coordinate magnitude for which [`Vec3i::dist_sq`] is overflow-free.
pub const COORD_LIMIT: i64 = 500_000_000;

/// A 3-vector of integer world units.
#[derive(Copy, Clone, Debug, PartialEq, Eq, Structural)]
pub struct Vec3i {
    pub x: i64,
    pub y: i64,
    pub z: i64,
}

impl Vec3i {
    /// True when every component of `self` has magnitude at most `b`.
    pub open spec fn within(self, b: int) -> bool {
        &&& -b <= self.x <= b
        &&& -b <= self.y <= b
        &&& -b <= self.z <= b
    }

    /// The squared Euclidean distance between `a` and `b`, as a mathematical integer.
    pub open spec fn dist_sq_spec(a: Vec3i, b: Vec3i) -> int {
        (a.x - b.x) * (a.x - b.x) + (a.y - b.y) * (a.y - b.y) + (a.z - b.z) * (a.z - b.z)
    }

    /// The zero vector.
    pub fn zero() -> (r: Vec3i)
        ensures
            r == (Vec3i { x: 0, y: 0, z: 0 }),
    {
        Vec3i { x: 0, y: 0, z: 0 }
    }

    /// Componentwise sum.
    pub fn add(self, o: Vec3i) -> (r: Vec3i)
        requires
            i64::MIN <= self.x + o.x <= i64::MAX,
            i64::MIN <= self.y + o.y <= i64::MAX,
            i64::MIN <= self.z + o.z <= i64::MAX,
        ensures
            r.x == self.x + o.x,
            r.y == self.y + o.y,
            r.z == self.z + o.z,
    {
        Vec3i { x: self.x + o.x, y: self.y + o.y, z: self.z + o.z }
    }

    /// Componentwise scaling by `k`.
    pub fn scale(self, k: i64) -> (r: Vec3i)
        requires
            i64::MIN <= self.x * k <= i64::MAX,
            i64::MIN <= self.y * k <= i64::MAX,
            i64::MIN <= self.z * k <= i64::MAX,
        ensures
            r.x == self.x * k,
            r.y == self.y * k,
            r.z == self.z * k,
    {
        Vec3i { x: self.x * k, y: self.y * k, z: self.z * k }
    }

    /// Squared distance between `a` and `b`; exact, no square root is taken.
    pub fn dist_sq(a: Vec3i, b: Vec3i) -> (r: i64)
        requires
            a.within(COORD_LIMIT as int),
            b.within(COORD_LIMIT as int),
        ensures
            r == Self::dist_sq_spec(a, b),
    {
        let dx: i64 = a.x - b.x;
        let dy: i64 = a.y - b.y;
        let dz: i64 = a.z - b.z;
        assert(dx * dx <= 1_000_000_000_000_000_000 && dx * dx >= 0) by (nonlinear_arith)
            requires -1_000_000_000 <= dx <= 1_000_000_000,
        ;
        assert(dy * dy <= 1_000_000_000_000_000_000 && dy * dy >= 0) by (nonlinear_arith)
            requires -1_000_000_000 <= dy <= 1_000_000_000,
        ;
        assert(dz * dz <= 1_000_000_000_000_000_000 && dz * dz >= 0) by (nonlinear_arith)
            requires -1_000_000_000 <= dz <= 1_000_000_000,
        ;
        dx * dx + dy * dy + dz * dz
    }
}

} // verus!

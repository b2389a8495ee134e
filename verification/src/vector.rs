//! Three-component integer vectors.

use vstd::prelude::*;

verus! {

/// A translation or a velocity, one `i32` per axis.
#[derive(Clone, Copy, Debug, PartialEq, Eq, Structural)]
pub struct Vec3 {
    pub x: i32,
    pub y: i32,
    pub z: i32,
}

/// Whether `v` can be stored in one component of a `Vec3`.
pub open spec fn fits_component(v: int) -> bool {
    i32::MIN <= v <= i32::MAX
}

/// The dot product of two vectors given by their components.
pub open spec fn dot(ax: int, ay: int, az: int, bx: int, by: int, bz: int) -> int {
    ax * bx + ay * by + az * bz
}

impl Vec3 {
    /// The vector with these components.
    pub fn new(x: i32, y: i32, z: i32) -> (v: Vec3)
        ensures
            v == (Vec3 { x, y, z }),
    {
        Vec3 { x, y, z }
    }

    /// The vector whose components are zero.
    pub fn zero() -> (v: Vec3)
        ensures
            v == (Vec3 { x: 0, y: 0, z: 0 }),
    {
        Vec3 { x: 0, y: 0, z: 0 }
    }

    /// A vector with exactly one component of magnitude one and the others zero.
    pub open spec fn is_axis_unit(self) -> bool {
        self.x * self.x + self.y * self.y + self.z * self.z == 1
    }

    /// The sum of two vectors, where each component of it fits.
    pub open spec fn plus(self, other: Vec3) -> Option<Vec3> {
        if fits_component(self.x + other.x) && fits_component(self.y + other.y) && fits_component(
            self.z + other.z,
        ) {
            Some(
                Vec3 {
                    x: (self.x + other.x) as i32,
                    y: (self.y + other.y) as i32,
                    z: (self.z + other.z) as i32,
                },
            )
        } else {
            None
        }
    }

    /// Whether the vector is a unit vector along one axis: see [`Vec3::is_axis_unit`].
    pub fn check_axis_unit(&self) -> (b: bool)
        ensures
            b == self.is_axis_unit(),
    {
        let one_x: bool = self.x == 1 || self.x == -1;
        let one_y: bool = self.y == 1 || self.y == -1;
        let one_z: bool = self.z == 1 || self.z == -1;
        proof {
            lemma_square_is_one(self.x as int);
            lemma_square_is_one(self.y as int);
            lemma_square_is_one(self.z as int);
        }
        (one_x && self.y == 0 && self.z == 0) || (self.x == 0 && one_y && self.z == 0) || (self.x
            == 0 && self.y == 0 && one_z)
    }

    /// The sum of two vectors, where each component of it fits: see [`Vec3::plus`].
    pub fn checked_add(&self, other: &Vec3) -> (sum: Option<Vec3>)
        ensures
            sum == self.plus(*other),
    {
        match (self.x.checked_add(other.x), self.y.checked_add(other.y), self.z.checked_add(other.z)) {
            (Some(x), Some(y), Some(z)) => Some(Vec3 { x, y, z }),
            _ => None,
        }
    }
}

/// A square is zero for zero, one for plus and minus one, and at least four otherwise.
pub proof fn lemma_square_is_one(v: int)
    ensures
        v * v >= 0,
        v * v == 0 <==> v == 0,
        v * v == 1 <==> (v == 1 || v == -1),
        (v != 0 && v != 1 && v != -1) ==> v * v >= 4,
{
    assert(v * v >= 0) by (nonlinear_arith);
    assert(v * v == 0 <==> v == 0) by (nonlinear_arith);
    assert(v >= 2 ==> v * v >= 4) by (nonlinear_arith);
    assert(v <= -2 ==> v * v >= 4) by (nonlinear_arith);
    assert(v == 1 ==> v * v == 1) by (nonlinear_arith);
    assert(v == -1 ==> v * v == 1) by (nonlinear_arith);
}

} // verus!

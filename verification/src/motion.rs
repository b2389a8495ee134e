//! Semi-implicit Euler integration of one body.

use vstd::prelude::*;
use crate::arith::{mul_within, narrow};
use crate::body::RigidBody;
use crate::vector::{fits_component, Vec3};

verus! {

/// A velocity component after gravity has acted for `dt`.
pub open spec fn velocity_after(v: int, g: int, dt: int) -> int {
    v + g * dt
}

/// A position component after moving for `dt` at the velocity that gravity has already changed.
pub open spec fn position_after(p: int, v: int, g: int, dt: int) -> int {
    p + velocity_after(v, g, dt) * dt
}

/// Whether the state that integration gives `b` can be stored.
pub open spec fn advance_fits(b: RigidBody, g: Vec3, dt: int) -> bool {
    &&& fits_component(velocity_after(b.velocity.x as int, g.x as int, dt))
    &&& fits_component(velocity_after(b.velocity.y as int, g.y as int, dt))
    &&& fits_component(velocity_after(b.velocity.z as int, g.z as int, dt))
    &&& fits_component(position_after(b.position.x as int, b.velocity.x as int, g.x as int, dt))
    &&& fits_component(position_after(b.position.y as int, b.velocity.y as int, g.y as int, dt))
    &&& fits_component(position_after(b.position.z as int, b.velocity.z as int, g.z as int, dt))
}

/// The body after `dt` under gravity `g`: a static body as it was; a dynamic body
/// with its velocity changed first and its position moved by the new velocity.
/// `None` where a component of the new state cannot be stored.
pub open spec fn advanced(b: RigidBody, g: Vec3, dt: int) -> Option<RigidBody> {
    if b.is_static() {
        Some(b)
    } else if advance_fits(b, g, dt) {
        Some(
            RigidBody {
                velocity: Vec3 {
                    x: velocity_after(b.velocity.x as int, g.x as int, dt) as i32,
                    y: velocity_after(b.velocity.y as int, g.y as int, dt) as i32,
                    z: velocity_after(b.velocity.z as int, g.z as int, dt) as i32,
                },
                position: Vec3 {
                    x: position_after(b.position.x as int, b.velocity.x as int, g.x as int, dt) as i32,
                    y: position_after(b.position.y as int, b.velocity.y as int, g.y as int, dt) as i32,
                    z: position_after(b.position.z as int, b.velocity.z as int, g.z as int, dt) as i32,
                },
                ..b
            },
        )
    } else {
        None
    }
}

/// `value + rate * dt`, where it fits a component.
fn axis_after(value: i32, rate: i32, dt: i64) -> (r: Option<i32>)
    ensures
        r == (if fits_component(value + rate * dt) {
            Some((value + rate * dt) as i32)
        } else {
            None
        }),
{
    let moved: i128 = mul_within(
        rate as i128,
        dt as i128,
        Ghost(0x8000_0000),
        Ghost(0x8000_0000_0000_0000),
    );
    narrow(value as i128 + moved)
}

/// Integrates one body: see [`advanced`].
pub fn advance(b: &RigidBody, g: &Vec3, dt: i64) -> (r: Option<RigidBody>)
    ensures
        r == advanced(*b, *g, dt as int),
{
    match b.mass {
        crate::body::Mass::Static => Some(*b),
        crate::body::Mass::Dynamic { .. } => {
            let vx = axis_after(b.velocity.x, g.x, dt);
            let vy = axis_after(b.velocity.y, g.y, dt);
            let vz = axis_after(b.velocity.z, g.z, dt);
            match (vx, vy, vz) {
                (Some(vx), Some(vy), Some(vz)) => {
                    let px = axis_after(b.position.x, vx, dt);
                    let py = axis_after(b.position.y, vy, dt);
                    let pz = axis_after(b.position.z, vz, dt);
                    match (px, py, pz) {
                        (Some(px), Some(py), Some(pz)) => Some(
                            RigidBody {
                                shape: b.shape,
                                mass: b.mass,
                                restitution: b.restitution,
                                friction: b.friction,
                                position: Vec3 { x: px, y: py, z: pz },
                                velocity: Vec3 { x: vx, y: vy, z: vz },
                            },
                        ),
                        _ => None,
                    }
                },
                _ => None,
            }
        },
    }
}

/// Integration keeps a body well formed.
pub proof fn lemma_advanced_wf(b: RigidBody, g: Vec3, dt: int)
    requires
        b.wf(),
        advanced(b, g, dt) is Some,
    ensures
        advanced(b, g, dt)->0.wf(),
        advanced(b, g, dt)->0.shape == b.shape,
        advanced(b, g, dt)->0.mass == b.mass,
        advanced(b, g, dt)->0.restitution == b.restitution,
        advanced(b, g, dt)->0.friction == b.friction,
{
}

} // verus!

//! Contacts between two bodies: when they touch, and what a contact does to
//! a dynamic ball.

use vstd::prelude::*;
use crate::arith::{
    diff, div_toward_zero, dot_within, lemma_trunc_div_within, mul_within, narrow, span, trunc_div,
};
use crate::body::{Mass, RigidBody, Shape, PER_MILLE};
use crate::vector::{dot, fits_component, lemma_square_is_one, Vec3};

verus! {

/// The squared distance between two points.
pub open spec fn distance_squared(a: Vec3, b: Vec3) -> int {
    dot(a.x - b.x, a.y - b.y, a.z - b.z, a.x - b.x, a.y - b.y, a.z - b.z)
}

/// How far `point` lies in front of the plane through `origin` with unit normal `normal`.
pub open spec fn height_above(point: Vec3, origin: Vec3, normal: Vec3) -> int {
    dot(
        normal.x as int,
        normal.y as int,
        normal.z as int,
        point.x - origin.x,
        point.y - origin.y,
        point.z - origin.z,
    )
}

/// Whether the shapes of two bodies overlap: two balls whose centres are
/// closer than the sum of their radii, or a ball whose centre is less than
/// its radius in front of a half-space. Shapes that only touch do not
/// overlap, and two half-spaces are never held to.
pub open spec fn overlapping(a: RigidBody, b: RigidBody) -> bool {
    match (a.shape, b.shape) {
        (Shape::Ball { radius: ra }, Shape::Ball { radius: rb }) => distance_squared(
            a.position,
            b.position,
        ) < (ra + rb) * (ra + rb),
        (Shape::Ball { radius }, Shape::HalfSpace { normal }) => height_above(
            a.position,
            b.position,
            normal,
        ) < radius,
        (Shape::HalfSpace { normal }, Shape::Ball { radius }) => height_above(
            b.position,
            a.position,
            normal,
        ) < radius,
        (Shape::HalfSpace { .. }, Shape::HalfSpace { .. }) => false,
    }
}

/// Whether two bodies are in contact: their shapes overlap and at least one of them can move.
pub open spec fn in_contact(a: RigidBody, b: RigidBody) -> bool {
    (a.is_dynamic() || b.is_dynamic()) && overlapping(a, b)
}

/// The restitution of a contact: the mean of the two bodies' coefficients.
pub open spec fn restitution_between(a: RigidBody, b: RigidBody) -> int {
    (a.restitution + b.restitution) / 2
}

/// The friction of a contact: the mean of the two bodies' coefficients.
pub open spec fn friction_between(a: RigidBody, b: RigidBody) -> int {
    (a.friction + b.friction) / 2
}

/// The direction, not normalised, in which a contact pushes `me` away from `other`.
pub open spec fn push_direction(me: RigidBody, other: RigidBody) -> (int, int, int) {
    match other.shape {
        Shape::HalfSpace { normal } => (normal.x as int, normal.y as int, normal.z as int),
        Shape::Ball { .. } => (
            me.position.x - other.position.x,
            me.position.y - other.position.y,
            me.position.z - other.position.z,
        ),
    }
}

/// How far a contact moves `me` along the push direction: out of a half-space
/// until the ball rests on its plane; not at all away from another ball.
pub open spec fn push_depth(me: RigidBody, other: RigidBody) -> int {
    match (me.shape, other.shape) {
        (Shape::Ball { radius }, Shape::HalfSpace { normal }) => radius - height_above(
            me.position,
            other.position,
            normal,
        ),
        _ => 0,
    }
}

/// The share of a contact's change of relative velocity that `me` takes, as
/// numerator and denominator: all of it against a static body, and the
/// other body's share of the total mass against a dynamic one.
pub open spec fn velocity_share(me: RigidBody, other: RigidBody) -> (int, int) {
    match (me.mass, other.mass) {
        (Mass::Dynamic { mass: mine }, Mass::Dynamic { mass: theirs }) => (
            theirs as int,
            mine + theirs,
        ),
        _ => (1, 1),
    }
}

/// The change of one velocity component in a contact with closing speed
/// `closing` (negative, scaled by the length of the direction) along a
/// direction of squared length `nn`: the part along the direction is turned
/// round and scaled by the restitution `e`, the part across it is reduced
/// by the friction `f`, and `me` takes the share `w / total` of the change.
pub open spec fn velocity_change(
    relative: int,
    direction: int,
    closing: int,
    nn: int,
    e: int,
    f: int,
    w: int,
    total: int,
) -> int {
    trunc_div(
        w * (-(f * relative * nn) - (PER_MILLE - f + e) * closing * direction),
        PER_MILLE * total * nn,
    )
}

/// The three components of the position and of the velocity that a contact
/// with `other` gives a ball whose state is `run` and whose state after
/// integration was `snap`.
pub open spec fn response_components(run: RigidBody, snap: RigidBody, other: RigidBody) -> (
    (int, int, int),
    (int, int, int),
) {
    let (nx, ny, nz) = push_direction(snap, other);
    let nn = dot(nx, ny, nz, nx, ny, nz);
    let depth = push_depth(snap, other);
    let rx = run.velocity.x - other.velocity.x;
    let ry = run.velocity.y - other.velocity.y;
    let rz = run.velocity.z - other.velocity.z;
    let closing = dot(rx, ry, rz, nx, ny, nz);
    let e = restitution_between(snap, other);
    let f = friction_between(snap, other);
    let (w, total) = velocity_share(snap, other);
    let position = (
        run.position.x + depth * nx,
        run.position.y + depth * ny,
        run.position.z + depth * nz,
    );
    let velocity = if closing < 0 {
        (
            run.velocity.x + velocity_change(rx, nx, closing, nn, e, f, w, total),
            run.velocity.y + velocity_change(ry, ny, closing, nn, e, f, w, total),
            run.velocity.z + velocity_change(rz, nz, closing, nn, e, f, w, total),
        )
    } else {
        (run.velocity.x as int, run.velocity.y as int, run.velocity.z as int)
    };
    (position, velocity)
}

/// What a contact with `other` does to the body whose state is `run` and
/// whose state after integration was `snap`.
///
/// Nothing, where `snap` is static, where the two are not in contact, or
/// where two balls have the same centre. Else the ball is pushed out of a
/// half-space, and where the two are closing, its velocity is changed as
/// [`velocity_change`] says. `None` where a component of the new state
/// cannot be stored.
pub open spec fn response(run: RigidBody, snap: RigidBody, other: RigidBody) -> Option<RigidBody> {
    let (nx, ny, nz) = push_direction(snap, other);
    if !snap.is_dynamic() || !overlapping(snap, other) || dot(nx, ny, nz, nx, ny, nz) == 0 {
        Some(run)
    } else {
        let (p, v) = response_components(run, snap, other);
        if fits_component(p.0) && fits_component(p.1) && fits_component(p.2) && fits_component(v.0)
            && fits_component(v.1) && fits_component(v.2) {
            Some(
                RigidBody {
                    position: Vec3 { x: p.0 as i32, y: p.1 as i32, z: p.2 as i32 },
                    velocity: Vec3 { x: v.0 as i32, y: v.1 as i32, z: v.2 as i32 },
                    ..run
                },
            )
        } else {
            None
        }
    }
}

/// Whether the shapes of two bodies overlap: see [`overlapping`].
pub fn overlap(a: &RigidBody, b: &RigidBody) -> (r: bool)
    ensures
        r == overlapping(*a, *b),
{
    match (a.shape, b.shape) {
        (Shape::Ball { radius: ra }, Shape::Ball { radius: rb }) => {
            let dx: i64 = diff(a.position.x, b.position.x);
            let dy: i64 = diff(a.position.y, b.position.y);
            let dz: i64 = diff(a.position.z, b.position.z);
            let d2: i128 = dot_within(dx, dy, dz, dx, dy, dz);
            let reach: i128 = ra as i128 + rb as i128;
            let reach2: i128 = mul_within(reach, reach, Ghost(span()), Ghost(span()));
            d2 < reach2
        },
        (Shape::Ball { radius }, Shape::HalfSpace { normal }) => {
            height(&a.position, &b.position, &normal) < radius as i128
        },
        (Shape::HalfSpace { normal }, Shape::Ball { radius }) => {
            height(&b.position, &a.position, &normal) < radius as i128
        },
        (Shape::HalfSpace { .. }, Shape::HalfSpace { .. }) => false,
    }
}

/// How far `point` lies in front of a plane: see [`height_above`].
fn height(point: &Vec3, origin: &Vec3, normal: &Vec3) -> (r: i128)
    ensures
        r == height_above(*point, *origin, *normal),
        -3 * (span() * span()) <= r <= 3 * (span() * span()),
{
    dot_within(
        normal.x as i64,
        normal.y as i64,
        normal.z as i64,
        diff(point.x, origin.x),
        diff(point.y, origin.y),
        diff(point.z, origin.z),
    )
}

/// One component of the velocity after a contact: see [`velocity_change`].
fn velocity_component(
    current: i32,
    relative: i64,
    direction: i64,
    closing: i128,
    nn: i128,
    e: i128,
    f: i128,
    w: i128,
    total: i128,
) -> (r: i128)
    requires
        -span() <= relative <= span(),
        -span() <= direction <= span(),
        -3 * (span() * span()) <= closing <= 3 * (span() * span()),
        0 < nn <= 3 * (span() * span()),
        0 <= e <= 1000,
        0 <= f <= 1000,
        0 < w <= 0xffff,
        0 < total <= 0x1_fffe,
    ensures
        r == current + velocity_change(
            relative as int,
            direction as int,
            closing as int,
            nn as int,
            e as int,
            f as int,
            w as int,
            total as int,
        ),
{
    let ghost s2: int = span() * span();
    let t1: i128 = mul_within(f, relative as i128, Ghost(1000), Ghost(span()));
    let t1n: i128 = mul_within(t1, nn, Ghost(1000 * span()), Ghost(3 * s2));
    let c: i128 = 1000 - f + e;
    let t2: i128 = mul_within(c, closing, Ghost(2000), Ghost(3 * s2));
    let t2n: i128 = mul_within(t2, direction as i128, Ghost(2000 * (3 * s2)), Ghost(span()));
    let sum: i128 = -t1n - t2n;
    let numerator: i128 = mul_within(
        w,
        sum,
        Ghost(0xffff),
        Ghost((1000 * span()) * (3 * s2) + (2000 * (3 * s2)) * span()),
    );
    let d1: i128 = mul_within(1000, total, Ghost(1000), Ghost(0x1_fffe));
    let denominator: i128 = mul_within(d1, nn, Ghost(1000int * 0x1_fffe), Ghost(3 * s2));
    assert(denominator > 0) by (nonlinear_arith)
        requires
            denominator == d1 * nn,
            d1 == 1000 * total,
            total > 0,
            nn > 0,
    ;
    let change: i128 = div_toward_zero(numerator, denominator);
    proof {
        lemma_trunc_div_within(
            numerator as int,
            denominator as int,
            0xffff * ((1000 * span()) * (3 * s2) + (2000 * (3 * s2)) * span()),
        );
    }
    current as i128 + change
}

/// What a contact does to a body: see [`response`].
pub fn respond(run: &RigidBody, snap: &RigidBody, other: &RigidBody) -> (r: Option<RigidBody>)
    requires
        snap.wf(),
        other.wf(),
    ensures
        r == response(*run, *snap, *other),
{
    let mine: u16 = match snap.mass {
        Mass::Static => {
            return Some(*run);
        },
        Mass::Dynamic { mass } => mass,
    };
    if !overlap(snap, other) {
        return Some(*run);
    }
    let radius: i32 = match snap.shape {
        Shape::Ball { radius } => radius,
        Shape::HalfSpace { .. } => 0,
    };
    let (nx, ny, nz, depth): (i64, i64, i64, i128) = match other.shape {
        Shape::HalfSpace { normal } => {
            let h: i128 = height(&snap.position, &other.position, &normal);
            (normal.x as i64, normal.y as i64, normal.z as i64, radius as i128 - h)
        },
        Shape::Ball { .. } => (
            diff(snap.position.x, other.position.x),
            diff(snap.position.y, other.position.y),
            diff(snap.position.z, other.position.z),
            0,
        ),
    };
    let nn: i128 = dot_within(nx, ny, nz, nx, ny, nz);
    if nn == 0 {
        return Some(*run);
    }
    proof {
        lemma_square_is_one(nx as int);
        lemma_square_is_one(ny as int);
        lemma_square_is_one(nz as int);
    }
    let ghost s2: int = span() * span();
    let px: i128 = run.position.x as i128 + mul_within(depth, nx as i128, Ghost(3 * s2 + span()), Ghost(span()));
    let py: i128 = run.position.y as i128 + mul_within(depth, ny as i128, Ghost(3 * s2 + span()), Ghost(span()));
    let pz: i128 = run.position.z as i128 + mul_within(depth, nz as i128, Ghost(3 * s2 + span()), Ghost(span()));
    let rx: i64 = diff(run.velocity.x, other.velocity.x);
    let ry: i64 = diff(run.velocity.y, other.velocity.y);
    let rz: i64 = diff(run.velocity.z, other.velocity.z);
    let closing: i128 = dot_within(rx, ry, rz, nx, ny, nz);
    let e: i128 = (snap.restitution as i128 + other.restitution as i128) / 2;
    let f: i128 = (snap.friction as i128 + other.friction as i128) / 2;
    let (w, total): (i128, i128) = match other.mass {
        Mass::Dynamic { mass: theirs } => (theirs as i128, mine as i128 + theirs as i128),
        Mass::Static => (1, 1),
    };
    let (vx, vy, vz): (i128, i128, i128) = if closing < 0 {
        (
            velocity_component(run.velocity.x, rx, nx, closing, nn, e, f, w, total),
            velocity_component(run.velocity.y, ry, ny, closing, nn, e, f, w, total),
            velocity_component(run.velocity.z, rz, nz, closing, nn, e, f, w, total),
        )
    } else {
        (run.velocity.x as i128, run.velocity.y as i128, run.velocity.z as i128)
    };
    match (narrow(px), narrow(py), narrow(pz), narrow(vx), narrow(vy), narrow(vz)) {
        (Some(px), Some(py), Some(pz), Some(vx), Some(vy), Some(vz)) => Some(
            RigidBody {
                shape: run.shape,
                mass: run.mass,
                restitution: run.restitution,
                friction: run.friction,
                position: Vec3 { x: px, y: py, z: pz },
                velocity: Vec3 { x: vx, y: vy, z: vz },
            },
        ),
        _ => None,
    }
}

} // verus!

//! What holds of every step of a physics world, of every copy of positions
//! into transforms, and of every tick.

use vstd::prelude::*;
use crate::body::RigidBody;
use crate::contact::{height_above, in_contact, overlapping, response};
use crate::scheduler::{
    in_order, run_system, runs_before, ticked, Progress, Registered, SystemKind, TickError,
};
use crate::world::{Kind, WorldState};
use crate::motion::advanced;
use crate::physics::{
    all_advance, all_resolve, integrated, resolved, settled, step_outcome, stepped, PhysicsError,
};
use crate::vector::Vec3;

verus! {

/// A body that is static, or that overlaps none of the first `k` other
/// bodies, comes out of their contacts as it went in.
pub proof fn lemma_resolved_untouched(snap: Seq<RigidBody>, i: int, k: int)
    requires
        0 <= i < snap.len(),
        0 <= k <= snap.len(),
        snap[i].is_static() || forall|j: int| 0 <= j < k && j != i ==> !overlapping(snap[i], #[trigger] snap[j]),
    ensures
        resolved(snap, i, k) == Some(snap[i]),
    decreases k,
{
    if k > 0 {
        lemma_resolved_untouched(snap, i, k - 1);
        if k - 1 != i && !snap[i].is_static() {
            assert(!overlapping(snap[i], snap[k - 1]));
        }
    }
}

/// The contacts of a body change its position and its velocity, and nothing else of it.
pub proof fn lemma_resolved_keeps_kind(snap: Seq<RigidBody>, i: int, k: int)
    requires
        0 <= i < snap.len(),
        0 <= k <= snap.len(),
        snap[i].wf(),
        resolved(snap, i, k) is Some,
    ensures
        resolved(snap, i, k)->0.wf(),
        resolved(snap, i, k)->0.shape == snap[i].shape,
        resolved(snap, i, k)->0.mass == snap[i].mass,
        resolved(snap, i, k)->0.restitution == snap[i].restitution,
        resolved(snap, i, k)->0.friction == snap[i].friction,
    decreases k,
{
    if k > 0 {
        lemma_resolved_keeps_kind(snap, i, k - 1);
        if k - 1 != i {
            crate::physics::lemma_response_keeps_kind(
                resolved(snap, i, k - 1)->0,
                snap[i],
                snap[k - 1],
            );
        }
    }
}

/// Handles stay valid over a step: it keeps the number of the bodies, and
/// the shape, the mass and the coefficients of each.
pub proof fn law_step_keeps_the_bodies(bodies: Seq<RigidBody>, g: Vec3, dt: int, i: int)
    requires
        dt >= 0,
        stepped(bodies, g, dt) is Some,
        0 <= i < bodies.len(),
        bodies[i].wf(),
    ensures
        stepped(bodies, g, dt)->0.len() == bodies.len(),
        stepped(bodies, g, dt)->0[i].wf(),
        stepped(bodies, g, dt)->0[i].shape == bodies[i].shape,
        stepped(bodies, g, dt)->0[i].mass == bodies[i].mass,
        stepped(bodies, g, dt)->0[i].restitution == bodies[i].restitution,
        stepped(bodies, g, dt)->0[i].friction == bodies[i].friction,
{
    if dt != 0 {
        let snap = integrated(bodies, g, dt);
        assert(advanced(bodies[i], g, dt) is Some);
        crate::motion::lemma_advanced_wf(bodies[i], g, dt);
        assert(resolved(snap, i, snap.len() as int) is Some);
        lemma_resolved_keeps_kind(snap, i, snap.len() as int);
    }
}

/// A static body is where it was after a step of any `dt >= 0`, and at rest as before.
pub proof fn law_static_body_stays(bodies: Seq<RigidBody>, g: Vec3, dt: int, i: int)
    requires
        dt >= 0,
        stepped(bodies, g, dt) is Some,
        0 <= i < bodies.len(),
        bodies[i].is_static(),
    ensures
        stepped(bodies, g, dt)->0[i] == bodies[i],
        stepped(bodies, g, dt)->0[i].position == bodies[i].position,
{
    if dt != 0 {
        let snap = integrated(bodies, g, dt);
        assert(snap[i] == bodies[i]);
        lemma_resolved_untouched(snap, i, snap.len() as int);
    }
}

/// A dynamic body that is in contact with no other body after integration
/// leaves the step with each component of its velocity changed by gravity
/// times `dt`, and each component of its position moved by the new
/// velocity times `dt`.
pub proof fn law_free_body_integrates(bodies: Seq<RigidBody>, g: Vec3, dt: int, i: int)
    requires
        dt > 0,
        stepped(bodies, g, dt) is Some,
        0 <= i < bodies.len(),
        bodies[i].is_dynamic(),
        forall|j: int| 0 <= j < bodies.len() && j != i ==> !in_contact(
            integrated(bodies, g, dt)[i],
            #[trigger] integrated(bodies, g, dt)[j],
        ),
    ensures
        advanced(bodies[i], g, dt) == Some(stepped(bodies, g, dt)->0[i]),
        stepped(bodies, g, dt)->0[i].velocity.x == bodies[i].velocity.x + g.x * dt,
        stepped(bodies, g, dt)->0[i].velocity.y == bodies[i].velocity.y + g.y * dt,
        stepped(bodies, g, dt)->0[i].velocity.z == bodies[i].velocity.z + g.z * dt,
        stepped(bodies, g, dt)->0[i].position.x == bodies[i].position.x + stepped(bodies, g, dt)->0[i].velocity.x * dt,
        stepped(bodies, g, dt)->0[i].position.y == bodies[i].position.y + stepped(bodies, g, dt)->0[i].velocity.y * dt,
        stepped(bodies, g, dt)->0[i].position.z == bodies[i].position.z + stepped(bodies, g, dt)->0[i].velocity.z * dt,
{
    let snap = integrated(bodies, g, dt);
    assert(advanced(bodies[i], g, dt) is Some);
    assert(snap[i].is_dynamic());
    assert forall|j: int| 0 <= j < snap.len() && j != i implies !overlapping(
        snap[i],
        #[trigger] snap[j],
    ) by {
        assert(!in_contact(snap[i], snap[j]));
    }
    lemma_resolved_untouched(snap, i, snap.len() as int);
}

/// A step of zero succeeds, whatever the bodies, and leaves each of them and the clock as it was.
pub proof fn law_zero_step_changes_nothing(bodies: Seq<RigidBody>, g: Vec3, time: int)
    requires
        0 <= time <= u64::MAX,
    ensures
        step_outcome(bodies, g, time, 0) == Ok::<(), PhysicsError>(()),
        stepped(bodies, g, 0) == Some(bodies),
{
}

/// Overlap does not depend on the order in which the two bodies are named.
pub proof fn lemma_overlapping_symmetric(a: RigidBody, b: RigidBody)
    ensures
        overlapping(a, b) == overlapping(b, a),
{
    let dx = a.position.x - b.position.x;
    let dy = a.position.y - b.position.y;
    let dz = a.position.z - b.position.z;
    assert(dx * dx == (-dx) * (-dx)) by (nonlinear_arith);
    assert(dy * dy == (-dy) * (-dy)) by (nonlinear_arith);
    assert(dz * dz == (-dz) * (-dz)) by (nonlinear_arith);
    assert(crate::contact::distance_squared(a.position, b.position)
        == crate::contact::distance_squared(b.position, a.position));
}

/// Two bodies whose shapes do not overlap after integration register no
/// contact: neither changes the other, whatever else has happened to it.
pub proof fn law_separated_bodies_register_no_contact(
    run: RigidBody,
    a: RigidBody,
    b: RigidBody,
)
    requires
        !overlapping(a, b),
    ensures
        !in_contact(a, b),
        !in_contact(b, a),
        response(run, a, b) == Some(run),
        response(run, b, a) == Some(run),
{
    lemma_overlapping_symmetric(a, b);
}

/// A world of two bodies whose shapes do not overlap after integration
/// leaves a step with both bodies integrated and nothing else done to them.
pub proof fn law_separated_pair_only_integrates(a: RigidBody, b: RigidBody, g: Vec3, dt: int)
    requires
        dt > 0,
        advanced(a, g, dt) is Some,
        advanced(b, g, dt) is Some,
        !overlapping(advanced(a, g, dt)->0, advanced(b, g, dt)->0),
    ensures
        stepped(seq![a, b], g, dt) == Some(seq![advanced(a, g, dt)->0, advanced(b, g, dt)->0]),
{
    let bodies = seq![a, b];
    let snap = integrated(bodies, g, dt);
    assert(bodies[0] == a && bodies[1] == b);
    assert(all_advance(bodies, g, dt));
    assert(snap =~= seq![advanced(a, g, dt)->0, advanced(b, g, dt)->0]);
    law_separated_bodies_register_no_contact(snap[0], snap[0], snap[1]);
    law_separated_bodies_register_no_contact(snap[1], snap[0], snap[1]);
    assert(resolved(snap, 0, 0) == Some(snap[0]));
    assert(resolved(snap, 0, 1) == Some(snap[0]));
    assert(resolved(snap, 0, 2) == Some(snap[0]));
    assert(resolved(snap, 1, 0) == Some(snap[1]));
    assert(resolved(snap, 1, 1) == Some(snap[1]));
    assert(resolved(snap, 1, 2) == Some(snap[1]));
    assert(all_resolve(snap));
    assert(settled(snap) =~= snap);
}

/// A ball that a contact pushes out of a half-space rests on its plane
/// afterwards: its centre is one radius in front of the plane, so the two
/// no longer overlap.
pub proof fn law_pushed_ball_rests_on_plane(ball: RigidBody, plane: RigidBody)
    requires
        ball.wf(),
        plane.wf(),
        ball.is_dynamic(),
        plane.shape is HalfSpace,
        overlapping(ball, plane),
        response(ball, ball, plane) is Some,
    ensures
        height_above(
            response(ball, ball, plane)->0.position,
            plane.position,
            plane.shape->normal,
        ) == ball.shape->radius,
        !overlapping(response(ball, ball, plane)->0, plane),
{
    let n = plane.shape->normal;
    let radius = ball.shape->radius;
    let h = height_above(ball.position, plane.position, n);
    let depth = radius - h;
    let after = response(ball, ball, plane)->0;
    let (nx, ny, nz) = (n.x as int, n.y as int, n.z as int);
    assert(nx * nx + ny * ny + nz * nz == 1);
    assert(after.position.x == ball.position.x + depth * nx);
    assert(after.position.y == ball.position.y + depth * ny);
    assert(after.position.z == ball.position.z + depth * nz);
    let (dx, dy, dz) = (
        ball.position.x - plane.position.x,
        ball.position.y - plane.position.y,
        ball.position.z - plane.position.z,
    );
    assert(nx * (dx + depth * nx) + ny * (dy + depth * ny) + nz * (dz + depth * nz) == (nx * dx
        + ny * dy + nz * dz) + depth * (nx * nx + ny * ny + nz * nz)) by (nonlinear_arith);
    assert(depth * (nx * nx + ny * ny + nz * nz) == depth) by (nonlinear_arith)
        requires
            nx * nx + ny * ny + nz * nz == 1,
    ;
    assert(after.position.x - plane.position.x == dx + depth * nx);
    assert(after.position.y - plane.position.y == dy + depth * ny);
    assert(after.position.z - plane.position.z == dz + depth * nz);
}

/// After positions have been copied, the transform of every entity with a
/// ball equals the position of the ball's body, component by component;
/// the physics world, the balls and all other transforms are as before.
pub proof fn law_sync_copies_exactly(s: WorldState)
    requires
        s.sync_transforms().1 is Ok,
    ensures
        s.sync_transforms().0.in_sync(),
        s.sync_transforms().0.physics == s.physics,
        s.sync_transforms().0.balls == s.balls,
        forall|id: usize|
            s.transforms.contains_key(id) && #[trigger] s.balls.contains_key(id) ==> {
                let body = s.physics->0.bodies[s.balls[id].body.index as int];
                let after = s.sync_transforms().0.transforms[id].translation;
                after.x == body.position.x && after.y == body.position.y && after.z
                    == body.position.z
            },
        forall|id: usize|
            #[trigger] s.transforms.contains_key(id) && !s.balls.contains_key(id)
                ==> s.sync_transforms().0.transforms[id] == s.transforms[id],
{
}

/// A tick that ends with the copy of positions, and that runs to its end,
/// leaves the transform of every entity with a ball equal to the position
/// of the ball's body.
pub proof fn law_finished_tick_is_in_sync(
    entries: Seq<Registered>,
    from: int,
    s: WorldState,
    dt: int,
)
    requires
        0 <= from < entries.len(),
        entries.last().kind is TransformSync || entries.last().kind is BallFall,
        ticked(entries, from, s, dt).2 == Ok::<Progress, TickError>(Progress::Finished),
    ensures
        ticked(entries, from, s, dt).0.in_sync(),
    decreases entries.len() - from,
{
    let (after, r) = run_system(entries[from].kind, s, dt);
    if from + 1 < entries.len() {
        law_finished_tick_is_in_sync(entries, from + 1, after, dt);
    } else {
        assert(ticked(entries, from + 1, after, dt) == (
            after,
            0int,
            Ok::<Progress, TickError>(Progress::Finished),
        ));
    }
}

/// The number of entries that run before `entry`.
pub open spec fn count_before(entries: Seq<Registered>, entry: Registered) -> int
    decreases entries.len(),
{
    if entries.len() == 0 {
        0
    } else {
        count_before(entries.drop_last(), entry) + if runs_before(entries.last(), entry) {
            1int
        } else {
            0int
        }
    }
}

/// Where every entry runs before `entry`, all of them are counted.
pub proof fn lemma_count_before_all(entries: Seq<Registered>, entry: Registered)
    requires
        forall|k: int| 0 <= k < entries.len() ==> runs_before(#[trigger] entries[k], entry),
    ensures
        count_before(entries, entry) == entries.len(),
    decreases entries.len(),
{
    if entries.len() > 0 {
        let rest = entries.drop_last();
        assert forall|k: int| 0 <= k < rest.len() implies runs_before(
            #[trigger] rest[k],
            entry,
        ) by {
            assert(rest[k] == entries[k]);
        }
        lemma_count_before_all(rest, entry);
        assert(runs_before(entries[entries.len() - 1], entry));
    }
}

/// The place of a system in a tick is the number of registered systems
/// that have a lower priority, or the same priority and an earlier
/// registration. So the order in which a tick runs the systems follows
/// their priorities, in whatever order they were registered.
pub proof fn law_place_is_number_of_systems_before(entries: Seq<Registered>, k: int)
    requires
        in_order(entries),
        0 <= k < entries.len(),
    ensures
        count_before(entries, entries[k]) == k,
    decreases entries.len(),
{
    let rest = entries.drop_last();
    let last = entries.last();
    assert forall|a: int, b: int| 0 <= a < b < rest.len() implies runs_before(
        #[trigger] rest[a],
        #[trigger] rest[b],
    ) by {
        assert(runs_before(entries[a], entries[b]));
    }
    if k < entries.len() - 1 {
        assert(rest[k] == entries[k]);
        law_place_is_number_of_systems_before(rest, k);
        assert(runs_before(entries[k], entries[entries.len() - 1]));
    } else {
        assert forall|j: int| 0 <= j < rest.len() implies runs_before(#[trigger] rest[j], last) by {
            assert(runs_before(entries[j], entries[entries.len() - 1]));
        }
        lemma_count_before_all(rest, last);
    }
}

/// A tick runs the systems by rising priority: of two systems, the one with
/// the lower priority runs first.
pub proof fn law_lower_priority_runs_first(entries: Seq<Registered>, a: int, b: int)
    requires
        in_order(entries),
        0 <= a < entries.len(),
        0 <= b < entries.len(),
        entries[a].priority < entries[b].priority,
    ensures
        a < b,
{
    if b < a {
        assert(runs_before(entries[b], entries[a]));
    }
}

/// The step of the physics world and the copy of its positions may not run
/// at the same time: the one writes what the other reads.
pub proof fn law_step_and_sync_conflict()
    ensures
        SystemKind::PhysicsStep.conflicts_with(SystemKind::TransformSync),
        SystemKind::TransformSync.conflicts_with(SystemKind::PhysicsStep),
{
    assert(SystemKind::PhysicsStep.clashes_on(SystemKind::TransformSync, Kind::PhysicsWorld));
    assert(SystemKind::TransformSync.clashes_on(SystemKind::PhysicsStep, Kind::PhysicsWorld));
}

/// Every two systems conflict, and so does a system with another of its own
/// kind: each declares that it writes a kind that the other declares to
/// read or write. So no two systems of a tick may run at the same time.
pub proof fn law_every_two_systems_conflict(first: SystemKind, second: SystemKind)
    ensures
        first.conflicts_with(second),
{
}

/// A system changes components only of the kinds that it declares to
/// write, and it neither creates an entity nor moves the physics world to
/// another one.
pub proof fn law_systems_write_what_they_declare(kind: SystemKind, s: WorldState, dt: int)
    ensures
        run_system(kind, s, dt).0.entity_count == s.entity_count,
        run_system(kind, s, dt).0.physics_entity == s.physics_entity,
        !kind.declares_write(Kind::LocalTransform) ==> run_system(kind, s, dt).0.transforms
            == s.transforms,
        !kind.declares_write(Kind::Ball) ==> run_system(kind, s, dt).0.balls == s.balls,
        !kind.declares_write(Kind::PhysicsWorld) ==> run_system(kind, s, dt).0.physics
            == s.physics,
{
}

/// The distance between two numbers.
pub open spec fn apart(a: int, b: int) -> int {
    if a >= b {
        a - b
    } else {
        b - a
    }
}

/// Two balls do not overlap where, along one axis, their centres are at
/// least the sum of their radii apart.
pub proof fn lemma_balls_apart_along_an_axis(a: RigidBody, b: RigidBody)
    requires
        a.shape is Ball,
        b.shape is Ball,
        a.shape->radius > 0,
        b.shape->radius > 0,
        apart(a.position.x as int, b.position.x as int) >= a.shape->radius + b.shape->radius
            || apart(a.position.y as int, b.position.y as int) >= a.shape->radius
            + b.shape->radius || apart(a.position.z as int, b.position.z as int)
            >= a.shape->radius + b.shape->radius,
    ensures
        !overlapping(a, b),
{
    let reach = a.shape->radius + b.shape->radius;
    let dx = a.position.x - b.position.x;
    let dy = a.position.y - b.position.y;
    let dz = a.position.z - b.position.z;
    assert(dx * dx >= 0 && dy * dy >= 0 && dz * dz >= 0) by (nonlinear_arith);
    assert((dx >= reach || -dx >= reach) && reach >= 0 ==> dx * dx >= reach * reach)
        by (nonlinear_arith);
    assert((dy >= reach || -dy >= reach) && reach >= 0 ==> dy * dy >= reach * reach)
        by (nonlinear_arith);
    assert((dz >= reach || -dz >= reach) && reach >= 0 ==> dz * dz >= reach * reach)
        by (nonlinear_arith);
}

/// Two balls register no contact in a step where, along one axis, their
/// centres begin further apart than the sum of their radii and of the ways
/// that the step moves the two along that axis.
pub proof fn law_balls_kept_apart_register_no_contact(
    a: RigidBody,
    b: RigidBody,
    g: Vec3,
    dt: int,
)
    requires
        a.wf(),
        b.wf(),
        a.shape is Ball,
        b.shape is Ball,
        advanced(a, g, dt) is Some,
        advanced(b, g, dt) is Some,
        apart(a.position.x as int, b.position.x as int) >= a.shape->radius + b.shape->radius
            + apart(advanced(a, g, dt)->0.position.x as int, a.position.x as int) + apart(
            advanced(b, g, dt)->0.position.x as int,
            b.position.x as int,
        ) || apart(a.position.y as int, b.position.y as int) >= a.shape->radius
            + b.shape->radius + apart(advanced(a, g, dt)->0.position.y as int, a.position.y as int)
            + apart(advanced(b, g, dt)->0.position.y as int, b.position.y as int) || apart(
            a.position.z as int,
            b.position.z as int,
        ) >= a.shape->radius + b.shape->radius + apart(
            advanced(a, g, dt)->0.position.z as int,
            a.position.z as int,
        ) + apart(advanced(b, g, dt)->0.position.z as int, b.position.z as int),
    ensures
        !overlapping(advanced(a, g, dt)->0, advanced(b, g, dt)->0),
        !in_contact(advanced(a, g, dt)->0, advanced(b, g, dt)->0),
{
    crate::motion::lemma_advanced_wf(a, g, dt);
    crate::motion::lemma_advanced_wf(b, g, dt);
    lemma_balls_apart_along_an_axis(advanced(a, g, dt)->0, advanced(b, g, dt)->0);
}

} // verus!

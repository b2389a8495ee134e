//! The falling-balls scene: an open box of five half-spaces, one fixed ball
//! in it, and a column of balls that fall into it.
//!
//! Lengths are in micrometres and times in sixtieths of a second, so that
//! gravity, 9.81 metres per second squared, is the whole number 2725.

use vstd::prelude::*;
use crate::body::{Mass, RigidBody, Shape};
use crate::context::{any_quit_event, TickContext, Trans};
use crate::physics::{PhysicsState, PhysicsWorld, RigidBodyHandle};
use crate::storage::Entity;
use crate::vector::Vec3;
use crate::world::{Ball, LocalTransform, PhysicsWorldRef, World, WorldState};

verus! {

/// One metre, in micrometres.
pub const METRE: i32 = 1_000_000;

/// The number of balls that `on_start` drops.
pub const BALLS: usize = 100;

/// The largest number of balls that a scene can hold: each starts five
/// metres above the one before, and the last must still be in range.
pub const MAX_BALLS: usize = 400;

/// The restitution of every body of the scene, in thousandths.
pub const RESTITUTION: u16 = 300;

/// The friction of every body of the scene, in thousandths.
pub const FRICTION: u16 = 600;

/// The number of bodies that do not move: the fixed ball and the five sides of the box.
pub const FIXED_BODIES: usize = 6;

/// The length of a sixtieth of a second in nanoseconds, to the nearest nanosecond.
pub const TICK_NANOS: u32 = 16_666_667;

/// Why the scene was refused.
#[derive(Clone, Copy, Debug, PartialEq, Eq, Structural)]
pub enum SceneError {
    /// More balls were asked for than a scene can hold.
    TooManyBalls,
    /// The world holds a physics world already.
    PhysicsWorldExists,
}

/// Gravity: 9.81 metres per second squared, downwards.
pub open spec fn scene_gravity() -> Vec3 {
    Vec3 { x: 0, y: 0, z: -2725i32 }
}

/// The normal of side `k` of the box: four walls and, last, the floor.
pub open spec fn side_normal(k: int) -> Vec3 {
    if k == 0 {
        Vec3 { x: 1, y: 0, z: 0 }
    } else if k == 1 {
        Vec3 { x: -1i32, y: 0, z: 0 }
    } else if k == 2 {
        Vec3 { x: 0, y: 1, z: 0 }
    } else if k == 3 {
        Vec3 { x: 0, y: -1i32, z: 0 }
    } else {
        Vec3 { x: 0, y: 0, z: 1 }
    }
}

/// A point of side `k` of the box: each side is fifteen metres from the origin.
pub open spec fn side_offset(k: int) -> Vec3 {
    if k == 0 {
        Vec3 { x: -15_000_000i32, y: 0, z: 0 }
    } else if k == 1 {
        Vec3 { x: 15_000_000, y: 0, z: 0 }
    } else if k == 2 {
        Vec3 { x: 0, y: -15_000_000i32, z: 0 }
    } else if k == 3 {
        Vec3 { x: 0, y: 15_000_000, z: 0 }
    } else {
        Vec3 { x: 0, y: 0, z: -15_000_000i32 }
    }
}

/// A body of the scene, at rest.
pub open spec fn scene_body(shape: Shape, mass: Mass, position: Vec3) -> RigidBody {
    RigidBody {
        shape,
        mass,
        restitution: RESTITUTION,
        friction: FRICTION,
        position,
        velocity: Vec3 { x: 0, y: 0, z: 0 },
    }
}

/// The fixed ball: one metre in radius, five metres below the origin and a little beside it.
pub open spec fn obstacle() -> RigidBody {
    scene_body(
        Shape::Ball { radius: METRE },
        Mass::Static,
        Vec3 { x: 100_000, y: 0, z: -5_000_000i32 },
    )
}

/// Side `k` of the box.
pub open spec fn side(k: int) -> RigidBody {
    scene_body(Shape::HalfSpace { normal: side_normal(k) }, Mass::Static, side_offset(k))
}

/// Falling ball `i`: one metre in radius, of mass one, five metres above the
/// one before, and moved sideways by its jitter.
pub open spec fn falling_ball(i: int, jitter: (i32, i32)) -> RigidBody {
    scene_body(
        Shape::Ball { radius: METRE },
        Mass::Dynamic { mass: 1 },
        Vec3 { x: jitter.0, y: jitter.1, z: (i * 5_000_000) as i32 },
    )
}

/// The bodies of the scene: the fixed ball, the five sides, then the falling balls.
pub open spec fn scene_bodies(jitter: Seq<(i32, i32)>) -> Seq<RigidBody> {
    Seq::new(
        FIXED_BODIES as nat + jitter.len(),
        |k: int|
            if k == 0 {
                obstacle()
            } else if k < FIXED_BODIES {
                side(k - 1)
            } else {
                falling_ball(k - FIXED_BODIES, jitter[k - FIXED_BODIES])
            },
    )
}

/// The world after the scene has been added to `s`: one new entity for each
/// falling ball, with a ball that refers to its body and a transform at the
/// origin, and behind them one new entity that holds the physics world.
pub open spec fn with_scene(s: WorldState, jitter: Seq<(i32, i32)>) -> WorldState {
    WorldState {
        entity_count: s.entity_count + jitter.len() + 1,
        transforms: Map::new(
            |id: usize|
                s.transforms.contains_key(id) || s.entity_count <= id < s.entity_count
                    + jitter.len(),
            |id: usize|
                if s.entity_count <= id < s.entity_count + jitter.len() {
                    LocalTransform { translation: Vec3 { x: 0, y: 0, z: 0 } }
                } else {
                    s.transforms[id]
                },
        ),
        balls: Map::new(
            |id: usize|
                s.balls.contains_key(id) || s.entity_count <= id < s.entity_count + jitter.len(),
            |id: usize|
                if s.entity_count <= id < s.entity_count + jitter.len() {
                    Ball {
                        body: RigidBodyHandle {
                            index: (FIXED_BODIES + (id - s.entity_count)) as usize,
                        },
                    }
                } else {
                    s.balls[id]
                },
        ),
        physics_entity: Some(Entity { id: (s.entity_count + jitter.len()) as usize }),
        physics: Some(
            PhysicsState { bodies: scene_bodies(jitter), gravity: scene_gravity(), time: 0 },
        ),
    }
}

/// The world after `populate`, and how it ends. Where the scene is refused
/// the world stays as it is.
pub open spec fn populated(s: WorldState, jitter: Seq<(i32, i32)>) -> (
    WorldState,
    Result<(), SceneError>,
) {
    if jitter.len() > MAX_BALLS {
        (s, Err(SceneError::TooManyBalls))
    } else if s.physics is Some {
        (s, Err(SceneError::PhysicsWorldExists))
    } else {
        (with_scene(s, jitter), Ok(()))
    }
}

/// Whether these are the jitters of `count` balls, each less than a metre along each axis.
pub open spec fn is_jitter(jitter: Seq<(i32, i32)>, count: nat) -> bool {
    &&& jitter.len() == count
    &&& forall|i: int|
        0 <= i < jitter.len() ==> 0 <= (#[trigger] jitter[i]).0 < METRE && 0 <= jitter[i].1 < METRE
}

/// Whether `populate` with this jitter takes the world from `before` to `after` and ends in `r`.
pub open spec fn arises(
    before: WorldState,
    jitter: Seq<(i32, i32)>,
    after: WorldState,
    r: Result<(), SceneError>,
) -> bool {
    populated(before, jitter) == (after, r)
}

/// Calls `rand::random::<u32>()`, which draws a number from the generator of
/// the calling thread. Nothing is claimed of the number.
#[verifier::external_body]
fn random_u32() -> (raw: u32) {
    rand::random::<u32>()
}

/// The sideways move, below one metre, that a drawn number stands for.
pub fn jitter_from(raw: u32) -> (j: i32)
    ensures
        j == raw % 1_000_000,
        0 <= j < METRE,
{
    (raw % 1_000_000) as i32
}

/// The whole sixtieths of a second in a frame time, given as the nanoseconds
/// of the frame and those left over from the frames before, and the
/// nanoseconds that are left over now.
pub fn ticks_in(frame_nanos: u32, carried_nanos: u32) -> (r: (i64, u32))
    ensures
        r.0 == (frame_nanos + carried_nanos) / (TICK_NANOS as int),
        r.1 == (frame_nanos + carried_nanos) % (TICK_NANOS as int),
        r.0 * TICK_NANOS + r.1 == frame_nanos + carried_nanos,
        0 <= r.0,
{
    let total: u64 = frame_nanos as u64 + carried_nanos as u64;
    let ticks: u64 = total / (TICK_NANOS as u64);
    let rest: u64 = total % (TICK_NANOS as u64);
    assert(ticks * TICK_NANOS + rest == total) by (nonlinear_arith)
        requires
            ticks == total / (TICK_NANOS as u64),
            rest == total % (TICK_NANOS as u64),
            TICK_NANOS > 0,
    ;
    assert(ticks <= total) by (nonlinear_arith)
        requires
            ticks * TICK_NANOS + rest == total,
            TICK_NANOS >= 1,
            rest >= 0,
            ticks >= 0,
    ;
    (ticks as i64, rest as u32)
}

/// Side `k` of the box as a body.
fn make_side(k: usize) -> (body: RigidBody)
    requires
        k < 5,
    ensures
        body == side(k as int),
        body.defect() is None,
{
    let (normal, offset): (Vec3, Vec3) = if k == 0 {
        (Vec3::new(1, 0, 0), Vec3::new(-15_000_000, 0, 0))
    } else if k == 1 {
        (Vec3::new(-1, 0, 0), Vec3::new(15_000_000, 0, 0))
    } else if k == 2 {
        (Vec3::new(0, 1, 0), Vec3::new(0, -15_000_000, 0))
    } else if k == 3 {
        (Vec3::new(0, -1, 0), Vec3::new(0, 15_000_000, 0))
    } else {
        (Vec3::new(0, 0, 1), Vec3::new(0, 0, -15_000_000))
    };
    assert(normal.is_axis_unit()) by (nonlinear_arith)
        requires
            normal == side_normal(k as int),
            0 <= k < 5,
    ;
    RigidBody {
        shape: Shape::HalfSpace { normal },
        mass: Mass::Static,
        restitution: RESTITUTION,
        friction: FRICTION,
        position: offset,
        velocity: Vec3::zero(),
    }
}

/// The physics world of the scene, for these jitters of its falling balls.
pub fn build_physics_world(jitter: &Vec<(i32, i32)>) -> (r: Option<PhysicsWorld>)
    ensures
        r is Some <==> jitter@.len() <= MAX_BALLS,
        r matches Some(w) ==> w.wf() && w@ == (PhysicsState {
            bodies: scene_bodies(jitter@),
            gravity: scene_gravity(),
            time: 0,
        }),
{
    let n: usize = jitter.len();
    if n > MAX_BALLS {
        return None;
    }
    let mut physics = PhysicsWorld::new();
    physics.set_gravity(Vec3::new(0, 0, -2725));
    let fixed = RigidBody {
        shape: Shape::Ball { radius: METRE },
        mass: Mass::Static,
        restitution: RESTITUTION,
        friction: FRICTION,
        position: Vec3::new(100_000, 0, -5_000_000),
        velocity: Vec3::zero(),
    };
    let added = physics.add_rigid_body(fixed);
    assert(added is Ok);
    let mut k: usize = 0;
    while k < 5
        invariant
            k <= 5,
            physics.wf(),
            physics@.gravity == scene_gravity(),
            physics@.time == 0,
            physics@.bodies.len() == 1 + k,
            forall|j: int| 0 <= j < 1 + k ==> #[trigger] physics@.bodies[j] == scene_bodies(jitter@)[j],
            n == jitter@.len(),
            n <= MAX_BALLS,
        decreases 5 - k,
    {
        let added = physics.add_rigid_body(make_side(k));
        assert(added is Ok);
        k += 1;
    }
    let mut i: usize = 0;
    while i < n
        invariant
            i <= n,
            n == jitter@.len(),
            n <= MAX_BALLS,
            physics.wf(),
            physics@.gravity == scene_gravity(),
            physics@.time == 0,
            physics@.bodies.len() == FIXED_BODIES + i,
            forall|j: int|
                0 <= j < FIXED_BODIES + i ==> #[trigger] physics@.bodies[j] == scene_bodies(
                    jitter@,
                )[j],
        decreases n - i,
    {
        let (jx, jy): (i32, i32) = jitter[i];
        let height: i32 = (i as i32) * 5_000_000;
        let ball = RigidBody {
            shape: Shape::Ball { radius: METRE },
            mass: Mass::Dynamic { mass: 1 },
            restitution: RESTITUTION,
            friction: FRICTION,
            position: Vec3::new(jx, jy, height),
            velocity: Vec3::zero(),
        };
        assert(ball == falling_ball(i as int, jitter@[i as int]));
        let added = physics.add_rigid_body(ball);
        assert(added is Ok);
        i += 1;
    }
    assert(physics@.bodies =~= scene_bodies(jitter@));
    Some(physics)
}

/// Adds the scene to the world: see [`populated`]. The world must be able
/// to count one more entity for each falling ball, and one for the physics
/// world.
pub fn populate(world: &mut World, jitter: &Vec<(i32, i32)>) -> (r: Result<(), SceneError>)
    requires
        old(world).wf(),
        old(world)@.entity_count + jitter@.len() + 1 <= usize::MAX,
    ensures
        final(world).wf(),
        (final(world)@, r) == populated(old(world)@, jitter@),
{
    let n: usize = jitter.len();
    let physics: PhysicsWorld = match build_physics_world(jitter) {
        Some(physics) => physics,
        None => {
            return Err(SceneError::TooManyBalls);
        },
    };
    if world.physics_world().is_some() {
        return Err(SceneError::PhysicsWorldExists);
    }
    let first: usize = world.entities();
    let ghost before: WorldState = world@;
    let mut i: usize = 0;
    while i < n
        invariant
            i <= n,
            n == jitter@.len(),
            n <= MAX_BALLS,
            first + n + 1 <= usize::MAX,
            before == old(world)@,
            before.wf(),
            before.entity_count == first,
            before.physics is None,
            world.wf(),
            world@.entity_count == first + i,
            world@.physics_entity == before.physics_entity,
            world@.physics == before.physics,
            world@.transforms =~= Map::new(
                |id: usize| before.transforms.contains_key(id) || first <= id < first + i,
                |id: usize|
                    if first <= id < first + i {
                        LocalTransform { translation: Vec3 { x: 0, y: 0, z: 0 } }
                    } else {
                        before.transforms[id]
                    },
            ),
            world@.balls =~= Map::new(
                |id: usize| before.balls.contains_key(id) || first <= id < first + i,
                |id: usize|
                    if first <= id < first + i {
                        Ball { body: RigidBodyHandle { index: (FIXED_BODIES + (id - first)) as usize } }
                    } else {
                        before.balls[id]
                    },
            ),
        decreases n - i,
    {
        let entity = world.create_entity();
        let ball = Ball::new(RigidBodyHandle { index: FIXED_BODIES + i });
        let with_ball = world.attach_ball(entity, ball);
        let with_transform = world.attach_transform(entity, LocalTransform::default());
        assert(with_ball is Ok && with_transform is Ok);
        assert forall|id: usize| before.transforms.contains_key(id) implies id < first by {}
        assert forall|id: usize| before.balls.contains_key(id) implies id < first by {}
        i += 1;
    }
    let holder = world.create_entity();
    let attached = world.attach_physics_world(holder, PhysicsWorldRef::new(physics));
    assert(attached is Ok);
    assert(world@.transforms =~= with_scene(before, jitter@).transforms);
    assert(world@.balls =~= with_scene(before, jitter@).balls);
    assert(world@ == with_scene(before, jitter@));
    Ok(())
}

/// The application: it sets the scene up and ends the loop on request.
pub struct BallFall;

impl BallFall {
    /// Sets the scene up with [`BALLS`] falling balls, each moved sideways by
    /// less than a metre along each axis, by amounts drawn at random.
    pub fn on_start(&mut self, world: &mut World) -> (r: Result<(), SceneError>)
        requires
            old(world).wf(),
            old(world)@.entity_count + BALLS + 1 <= usize::MAX,
        ensures
            final(world).wf(),
            exists|jitter: Seq<(i32, i32)>|
                is_jitter(jitter, BALLS as nat) && #[trigger] arises(
                    old(world)@,
                    jitter,
                    final(world)@,
                    r,
                ),
    {
        let mut jitter: Vec<(i32, i32)> = Vec::new();
        let mut i: usize = 0;
        while i < BALLS
            invariant
                i <= BALLS,
                is_jitter(jitter@, i as nat),
            decreases BALLS - i,
        {
            let x: i32 = jitter_from(random_u32());
            let y: i32 = jitter_from(random_u32());
            jitter.push((x, y));
            i += 1;
        }
        let r = populate(world, &jitter);
        assert(arises(old(world)@, jitter@, world@, r));
        r
    }

    /// Ends the loop where an event of the tick asks for it: the window was
    /// closed, or the escape key was reported.
    pub fn update(&mut self, ctx: &TickContext) -> (t: Trans)
        ensures
            t == (if any_quit_event(ctx.events@) {
                Trans::Quit
            } else {
                Trans::Continue
            }),
    {
        if ctx.quit_requested() {
            Trans::Quit
        } else {
            Trans::Continue
        }
    }
}

} // verus!

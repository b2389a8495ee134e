use ball_fall::body::{Mass, Shape};
use ball_fall::context::{Event, TickContext, Trans, VirtualKeyCode};
use ball_fall::physics::RigidBodyHandle;
use ball_fall::scene::{
    build_physics_world, jitter_from, populate, ticks_in, BallFall, SceneError, BALLS, FIXED_BODIES, FRICTION,
    MAX_BALLS, METRE, RESTITUTION, TICK_NANOS,
};
use ball_fall::storage::Entity;
use ball_fall::systems::BallFallProcessor;
use ball_fall::vector::Vec3;
use ball_fall::world::{Kind, LocalTransform, PhysicsWorldRef, World};

fn events(events: Vec<Event>) -> TickContext {
    TickContext { delta_time: None, events }
}

fn key(key: Option<VirtualKeyCode>) -> Event {
    Event::KeyboardInput { pressed: true, scancode: 1, key }
}

#[test]
fn scene_has_the_fixed_bodies_in_their_places() {
    let world = build_physics_world(&Vec::new()).unwrap();
    assert_eq!(world.len(), FIXED_BODIES);
    assert_eq!(world.get_gravity(), Vec3::new(0, 0, -2725));
    assert_eq!(world.clock(), 0);
    let rock = world.body(RigidBodyHandle { index: 0 }).unwrap();
    assert_eq!(rock.shape, Shape::Ball { radius: METRE });
    assert_eq!(rock.mass, Mass::Static);
    assert_eq!(rock.position, Vec3::new(100_000, 0, -5_000_000));
    let sides = [
        (Vec3::new(1, 0, 0), Vec3::new(-15_000_000, 0, 0)),
        (Vec3::new(-1, 0, 0), Vec3::new(15_000_000, 0, 0)),
        (Vec3::new(0, 1, 0), Vec3::new(0, -15_000_000, 0)),
        (Vec3::new(0, -1, 0), Vec3::new(0, 15_000_000, 0)),
        (Vec3::new(0, 0, 1), Vec3::new(0, 0, -15_000_000)),
    ];
    for (k, (normal, offset)) in sides.iter().enumerate() {
        let side = world.body(RigidBodyHandle { index: 1 + k }).unwrap();
        assert_eq!(side.shape, Shape::HalfSpace { normal: *normal });
        assert_eq!(side.position, *offset);
        assert_eq!(side.mass, Mass::Static);
        assert_eq!(side.restitution, RESTITUTION);
        assert_eq!(side.friction, FRICTION);
    }
}

#[test]
fn falling_balls_are_stacked_with_their_jitter() {
    let jitter = vec![(5, 6), (700_000, 0), (0, 999_999)];
    let world = build_physics_world(&jitter).unwrap();
    assert_eq!(world.len(), FIXED_BODIES + 3);
    for (i, (x, y)) in jitter.iter().enumerate() {
        let ball = world.body(RigidBodyHandle { index: FIXED_BODIES + i }).unwrap();
        assert_eq!(ball.shape, Shape::Ball { radius: 1_000_000 });
        assert_eq!(ball.mass, Mass::Dynamic { mass: 1 });
        assert_eq!(ball.restitution, 300);
        assert_eq!(ball.friction, 600);
        assert_eq!(ball.position, Vec3::new(*x, *y, 5_000_000 * i as i32));
        assert_eq!(ball.velocity, Vec3::new(0, 0, 0));
    }
}

#[test]
fn scene_holds_at_most_the_balls_that_fit() {
    assert!(build_physics_world(&vec![(0, 0); MAX_BALLS]).is_some());
    assert!(build_physics_world(&vec![(0, 0); MAX_BALLS + 1]).is_none());
    let mut world = World::new();
    assert_eq!(populate(&mut world, &vec![(0, 0); MAX_BALLS + 1]), Err(SceneError::TooManyBalls));
    assert_eq!(world.entities(), 0);
    assert!(world.physics_world().is_none());
}

#[test]
fn populate_adds_one_entity_for_each_ball_and_one_for_the_world() {
    let mut world = World::new();
    let camera = world.create_entity();
    world.attach_transform(camera, LocalTransform { translation: Vec3::new(0, 50, 0) }).unwrap();
    let jitter = vec![(1, 2), (3, 4)];
    assert_eq!(populate(&mut world, &jitter), Ok(()));
    assert_eq!(world.entities(), 4);
    assert_eq!(world.transform(camera), Some(LocalTransform { translation: Vec3::new(0, 50, 0) }));
    assert_eq!(world.ball(camera), None);
    for i in 0..2 {
        let entity = Entity { id: 1 + i };
        assert_eq!(world.ball(entity).unwrap().body, RigidBodyHandle { index: FIXED_BODIES + i });
        assert_eq!(world.transform(entity), Some(LocalTransform::default()));
    }
    assert_eq!(world.query(&vec![Kind::PhysicsWorld]), vec![Entity { id: 3 }]);
    assert_eq!(world.query(&vec![Kind::Ball, Kind::LocalTransform]), vec![Entity { id: 1 }, Entity { id: 2 }]);
    assert_eq!(world.physics_world().unwrap().len(), FIXED_BODIES + 2);
}

#[test]
fn populate_refuses_a_second_physics_world() {
    let mut world = World::new();
    assert_eq!(populate(&mut world, &vec![(0, 0)]), Ok(()));
    assert_eq!(populate(&mut world, &vec![(0, 0)]), Err(SceneError::PhysicsWorldExists));
    assert_eq!(world.entities(), 2);
    let mut other = World::new();
    let holder = other.create_entity();
    other.attach_physics_world(holder, PhysicsWorldRef::new(build_physics_world(&Vec::new()).unwrap())).unwrap();
    assert_eq!(BallFall.on_start(&mut other), Err(SceneError::PhysicsWorldExists));
    assert_eq!(other.entities(), 1);
}

#[test]
fn on_start_drops_a_hundred_balls_with_jitter_below_a_metre() {
    let mut world = World::new();
    assert_eq!(BallFall.on_start(&mut world), Ok(()));
    assert_eq!(BALLS, 100);
    assert_eq!(world.entities(), BALLS + 1);
    let physics = world.physics_world().unwrap();
    assert_eq!(physics.len(), FIXED_BODIES + BALLS);
    assert_eq!(physics.get_gravity(), Vec3::new(0, 0, -2725));
    let mut distinct = std::collections::BTreeSet::new();
    for i in 0..BALLS {
        let entity = Entity { id: i };
        let handle = world.ball(entity).unwrap().body;
        assert_eq!(handle, RigidBodyHandle { index: FIXED_BODIES + i });
        assert_eq!(world.transform(entity), Some(LocalTransform::default()));
        let body = physics.body(handle).unwrap();
        assert_eq!(body.position.z, 5 * METRE * i as i32);
        assert!(0 <= body.position.x && body.position.x < METRE);
        assert!(0 <= body.position.y && body.position.y < METRE);
        distinct.insert(body.position.x);
        distinct.insert(body.position.y);
    }
    // Two hundred draws from a million values: they are not all the same.
    assert!(distinct.len() > 1);
    assert!(world.has(Entity { id: BALLS }, Kind::PhysicsWorld));
}

#[test]
fn scene_stays_in_sync_over_many_ticks() {
    let mut world = World::new();
    BallFall.on_start(&mut world).unwrap();
    let ctx = TickContext { delta_time: Some(1), events: Vec::new() };
    for _ in 0..120 {
        BallFallProcessor.run(&mut world, &ctx).unwrap();
        for i in 0..BALLS {
            let entity = Entity { id: i };
            let handle = world.ball(entity).unwrap().body;
            let position = world.physics_world().unwrap().position(handle).unwrap();
            assert_eq!(world.transform(entity).unwrap().translation, position);
        }
        for k in 0..FIXED_BODIES {
            let body = world.physics_world().unwrap().body(RigidBodyHandle { index: k }).unwrap();
            assert_eq!(body.velocity, Vec3::new(0, 0, 0));
        }
    }
    let rock = world.physics_world().unwrap().position(RigidBodyHandle { index: 0 }).unwrap();
    assert_eq!(rock, Vec3::new(100_000, 0, -5_000_000));
}

#[test]
fn jitter_is_the_remainder_by_a_metre() {
    assert_eq!(jitter_from(0), 0);
    assert_eq!(jitter_from(999_999), 999_999);
    assert_eq!(jitter_from(1_000_000), 0);
    assert_eq!(jitter_from(u32::MAX), 967_295);
}

#[test]
fn frame_time_is_counted_in_whole_ticks() {
    assert_eq!(TICK_NANOS, 16_666_667);
    assert_eq!(ticks_in(0, 0), (0, 0));
    assert_eq!(ticks_in(16_666_666, 0), (0, 16_666_666));
    assert_eq!(ticks_in(16_666_667, 0), (1, 0));
    assert_eq!(ticks_in(20_000_000, 0), (1, 3_333_333));
    assert_eq!(ticks_in(10_000_000, 10_000_000), (1, 3_333_333));
    assert_eq!(ticks_in(999_999_999, 16_666_666), (60, 16_666_645));
    assert_eq!(ticks_in(u32::MAX, u32::MAX), (515, 6_601_085));
}

#[test]
fn update_quits_on_close_and_on_escape() {
    let mut state = BallFall;
    assert_eq!(state.update(&events(Vec::new())), Trans::Continue);
    assert_eq!(state.update(&events(vec![Event::Closed])), Trans::Quit);
    assert_eq!(state.update(&events(vec![key(Some(VirtualKeyCode::Escape))])), Trans::Quit);
    assert_eq!(
        state.update(&events(vec![Event::KeyboardInput {
            pressed: false,
            scancode: 200,
            key: Some(VirtualKeyCode::Escape)
        }])),
        Trans::Quit
    );
    assert_eq!(state.update(&events(vec![Event::Other, key(None), Event::Closed])), Trans::Quit);
    assert_eq!(state.update(&events(vec![key(Some(VirtualKeyCode::Other)), Event::Other])), Trans::Continue);
}

#[test]
fn update_goes_on_for_other_events() {
    let mut state = BallFall;
    assert_eq!(state.update(&events(vec![Event::Other])), Trans::Continue);
    assert_eq!(state.update(&events(vec![key(None)])), Trans::Continue);
    assert_eq!(state.update(&events(vec![key(Some(VirtualKeyCode::Other))])), Trans::Continue);
    assert!(!events(vec![key(None), Event::Other]).quit_requested());
    assert!(events(vec![key(None), Event::Other, Event::Closed]).quit_requested());
}

use ball_fall::body::{BodyError, Mass, RigidBody, Shape};
use ball_fall::physics::{PhysicsError, PhysicsWorld, RigidBodyHandle};
use ball_fall::vector::Vec3;

fn ball(radius: i32, mass: u16, restitution: u16, friction: u16, at: Vec3, velocity: Vec3) -> RigidBody {
    let mut body = RigidBody::new_dynamic(Shape::Ball { radius }, mass, restitution, friction).unwrap();
    body.append_translation(&at).unwrap();
    body.velocity = velocity;
    body
}

fn fixed_ball(radius: i32, restitution: u16, friction: u16, at: Vec3) -> RigidBody {
    let mut body = RigidBody::new_static(Shape::Ball { radius }, restitution, friction).unwrap();
    body.append_translation(&at).unwrap();
    body
}

fn plane(normal: Vec3, restitution: u16, friction: u16, at: Vec3) -> RigidBody {
    let mut body = RigidBody::new_static(Shape::HalfSpace { normal }, restitution, friction).unwrap();
    body.append_translation(&at).unwrap();
    body
}

#[test]
fn new_world_is_empty_at_time_zero() {
    let world = PhysicsWorld::new();
    assert_eq!(world.len(), 0);
    assert_eq!(world.clock(), 0);
    assert_eq!(world.get_gravity(), Vec3::new(0, 0, 0));
}

#[test]
fn handles_count_up_from_zero_and_stay_valid() {
    let mut world = PhysicsWorld::new();
    let a = world.add_rigid_body(fixed_ball(1, 0, 0, Vec3::new(1, 2, 3))).unwrap();
    let b = world.add_rigid_body(fixed_ball(1, 0, 0, Vec3::new(100, 0, 0))).unwrap();
    assert_eq!(a, RigidBodyHandle { index: 0 });
    assert_eq!(b, RigidBodyHandle { index: 1 });
    world.step(5).unwrap();
    assert!(world.contains(a));
    assert!(world.contains(b));
    assert_eq!(world.position(a), Ok(Vec3::new(1, 2, 3)));
    assert_eq!(world.body(b).unwrap().shape, Shape::Ball { radius: 1 });
}

#[test]
fn static_body_does_not_move() {
    let mut world = PhysicsWorld::new();
    world.set_gravity(Vec3::new(0, 0, -2725));
    let wall = world.add_rigid_body(plane(Vec3::new(0, 0, 1), 300, 600, Vec3::new(0, 0, -50))).unwrap();
    let rock = world.add_rigid_body(fixed_ball(10, 300, 600, Vec3::new(0, 0, 5))).unwrap();
    let falling = world.add_rigid_body(ball(10, 1, 300, 600, Vec3::new(0, 0, 20), Vec3::new(0, 0, 0))).unwrap();
    for dt in [0i64, 1, 2, 7] {
        world.step(dt).unwrap();
        assert_eq!(world.position(wall), Ok(Vec3::new(0, 0, -50)));
        assert_eq!(world.position(rock), Ok(Vec3::new(0, 0, 5)));
        assert_eq!(world.velocity(rock), Ok(Vec3::new(0, 0, 0)));
    }
    assert!(world.contains(falling));
}

#[test]
fn free_body_integrates_velocity_first() {
    let mut world = PhysicsWorld::new();
    world.set_gravity(Vec3::new(0, 0, -2725));
    let h = world
        .add_rigid_body(ball(1_000_000, 1, 300, 600, Vec3::new(0, 0, 50_000_000), Vec3::new(0, 0, 0)))
        .unwrap();
    world.step(1).unwrap();
    assert_eq!(world.velocity(h), Ok(Vec3::new(0, 0, -2725)));
    assert_eq!(world.position(h), Ok(Vec3::new(0, 0, 50_000_000 - 2725)));
    world.step(3).unwrap();
    // v = -2725 - 3 * 2725, p = p + v * 3
    assert_eq!(world.velocity(h), Ok(Vec3::new(0, 0, -10_900)));
    assert_eq!(world.position(h), Ok(Vec3::new(0, 0, 50_000_000 - 2725 - 32_700)));
    assert_eq!(world.clock(), 4);
}

#[test]
fn gravity_acts_along_every_axis() {
    let mut world = PhysicsWorld::new();
    world.set_gravity(Vec3::new(2, -3, 5));
    let h = world.add_rigid_body(ball(1, 1, 0, 0, Vec3::new(10, 20, 30), Vec3::new(1, 1, 1))).unwrap();
    world.step(4).unwrap();
    assert_eq!(world.velocity(h), Ok(Vec3::new(9, -11, 21)));
    assert_eq!(world.position(h), Ok(Vec3::new(46, -24, 114)));
}

#[test]
fn zero_step_changes_nothing() {
    let mut world = PhysicsWorld::new();
    world.set_gravity(Vec3::new(0, 0, -2725));
    // The two balls overlap and close in on each other: a step of zero still leaves them alone.
    let a = world.add_rigid_body(ball(10, 1, 300, 600, Vec3::new(0, 0, 0), Vec3::new(5, 0, 0))).unwrap();
    let b = world.add_rigid_body(ball(10, 2, 300, 600, Vec3::new(12, 0, 0), Vec3::new(-5, 1, 0))).unwrap();
    assert_eq!(world.touching(a, b), Ok(true));
    assert_eq!(world.step(0), Ok(()));
    assert_eq!(world.position(a), Ok(Vec3::new(0, 0, 0)));
    assert_eq!(world.velocity(a), Ok(Vec3::new(5, 0, 0)));
    assert_eq!(world.position(b), Ok(Vec3::new(12, 0, 0)));
    assert_eq!(world.velocity(b), Ok(Vec3::new(-5, 1, 0)));
    assert_eq!(world.clock(), 0);
}

#[test]
fn negative_step_is_refused() {
    let mut world = PhysicsWorld::new();
    world.set_gravity(Vec3::new(0, 0, -10));
    let h = world.add_rigid_body(ball(1, 1, 0, 0, Vec3::new(0, 0, 9), Vec3::new(0, 0, 0))).unwrap();
    assert_eq!(world.step(-1), Err(PhysicsError::NegativeDt));
    assert_eq!(world.position(h), Ok(Vec3::new(0, 0, 9)));
    assert_eq!(world.clock(), 0);
}

#[test]
fn clock_overflow_is_refused() {
    let mut world = PhysicsWorld::new();
    assert_eq!(world.step(i64::MAX), Ok(()));
    assert_eq!(world.step(i64::MAX), Ok(()));
    assert_eq!(world.clock(), u64::MAX - 1);
    assert_eq!(world.step(1), Ok(()));
    assert_eq!(world.step(1), Err(PhysicsError::ClockOverflow));
    assert_eq!(world.clock(), u64::MAX);
}

#[test]
fn state_out_of_range_is_refused_and_world_kept() {
    let mut world = PhysicsWorld::new();
    world.set_gravity(Vec3::new(0, 0, -2725));
    let h = world.add_rigid_body(ball(1, 1, 0, 0, Vec3::new(0, 0, 7), Vec3::new(0, 0, -1))).unwrap();
    assert_eq!(world.step(1_000_000_000), Err(PhysicsError::OutOfRange));
    assert_eq!(world.position(h), Ok(Vec3::new(0, 0, 7)));
    assert_eq!(world.velocity(h), Ok(Vec3::new(0, 0, -1)));
    assert_eq!(world.clock(), 0);
}

#[test]
fn unknown_handle_is_an_error() {
    let mut world = PhysicsWorld::new();
    let h = world.add_rigid_body(fixed_ball(1, 0, 0, Vec3::new(0, 0, 0))).unwrap();
    let stranger = RigidBodyHandle { index: 1 };
    assert!(!world.contains(stranger));
    assert_eq!(world.position(stranger), Err(PhysicsError::UnknownHandle));
    assert_eq!(world.velocity(stranger), Err(PhysicsError::UnknownHandle));
    assert_eq!(world.body(stranger), Err(PhysicsError::UnknownHandle));
    assert_eq!(world.touching(h, stranger), Err(PhysicsError::UnknownHandle));
}

#[test]
fn separated_balls_register_no_contact() {
    let mut world = PhysicsWorld::new();
    world.set_gravity(Vec3::new(0, 0, -1));
    // Radii 10 and 10, centres 30 apart, closing by 4 in total in one step: still 26 apart.
    let a = world.add_rigid_body(ball(10, 1, 300, 600, Vec3::new(0, 0, 0), Vec3::new(2, 0, 0))).unwrap();
    let b = world.add_rigid_body(ball(10, 1, 300, 600, Vec3::new(30, 0, 0), Vec3::new(-2, 0, 0))).unwrap();
    assert_eq!(world.touching(a, b), Ok(false));
    world.step(1).unwrap();
    assert_eq!(world.touching(a, b), Ok(false));
    assert_eq!(world.velocity(a), Ok(Vec3::new(2, 0, -1)));
    assert_eq!(world.position(a), Ok(Vec3::new(2, 0, -1)));
    assert_eq!(world.velocity(b), Ok(Vec3::new(-2, 0, -1)));
    assert_eq!(world.position(b), Ok(Vec3::new(28, 0, -1)));
}

#[test]
fn balls_that_only_touch_are_not_in_contact() {
    let mut world = PhysicsWorld::new();
    let a = world.add_rigid_body(ball(10, 1, 0, 0, Vec3::new(0, 0, 0), Vec3::new(0, 0, 0))).unwrap();
    let b = world.add_rigid_body(ball(10, 1, 0, 0, Vec3::new(20, 0, 0), Vec3::new(0, 0, 0))).unwrap();
    let c = world.add_rigid_body(ball(10, 1, 0, 0, Vec3::new(39, 0, 0), Vec3::new(0, 0, 0))).unwrap();
    assert_eq!(world.touching(a, b), Ok(false));
    assert_eq!(world.touching(b, c), Ok(true));
    assert_eq!(world.touching(c, b), Ok(true));
    assert_eq!(world.touching(b, b), Ok(false));
}

#[test]
fn two_static_bodies_are_never_in_contact() {
    let mut world = PhysicsWorld::new();
    let a = world.add_rigid_body(fixed_ball(10, 0, 0, Vec3::new(0, 0, 0))).unwrap();
    let b = world.add_rigid_body(fixed_ball(10, 0, 0, Vec3::new(1, 0, 0))).unwrap();
    let floor = world.add_rigid_body(plane(Vec3::new(0, 0, 1), 0, 0, Vec3::new(0, 0, 0))).unwrap();
    assert_eq!(world.touching(a, b), Ok(false));
    assert_eq!(world.touching(a, floor), Ok(false));
}

#[test]
fn floor_contact_projects_reflects_and_slows() {
    let mut world = PhysicsWorld::new();
    world.set_gravity(Vec3::new(0, 0, -10));
    let floor = world.add_rigid_body(plane(Vec3::new(0, 0, 1), 500, 200, Vec3::new(0, 0, 0))).unwrap();
    let h = world.add_rigid_body(ball(100, 1, 500, 200, Vec3::new(0, 0, 105), Vec3::new(30, 0, 0))).unwrap();
    world.step(1).unwrap();
    // Integrated: v = (30, 0, -10), p = (30, 0, 95): five below resting height.
    // Restitution 500: v.z = -10 + 15. Friction 200: v.x = 30 - 6.
    assert_eq!(world.position(h), Ok(Vec3::new(30, 0, 100)));
    assert_eq!(world.velocity(h), Ok(Vec3::new(24, 0, 5)));
    assert_eq!(world.touching(h, floor), Ok(false));
    assert_eq!(world.position(floor), Ok(Vec3::new(0, 0, 0)));
}

#[test]
fn velocity_change_rounds_towards_zero() {
    let mut world = PhysicsWorld::new();
    world.set_gravity(Vec3::new(0, 0, -10));
    world.add_rigid_body(plane(Vec3::new(0, 0, 1), 500, 200, Vec3::new(0, 0, 0))).unwrap();
    let h = world.add_rigid_body(ball(100, 1, 500, 200, Vec3::new(0, 0, 105), Vec3::new(37, -37, 0))).unwrap();
    world.step(1).unwrap();
    // 200 * 37 / 1000 = 7.4, taken as 7 in either direction.
    assert_eq!(world.velocity(h), Ok(Vec3::new(30, -30, 5)));
}

#[test]
fn coefficients_of_both_bodies_count() {
    let mut world = PhysicsWorld::new();
    world.set_gravity(Vec3::new(0, 0, -10));
    world.add_rigid_body(plane(Vec3::new(0, 0, 1), 1000, 0, Vec3::new(0, 0, 0))).unwrap();
    let h = world.add_rigid_body(ball(100, 1, 0, 400, Vec3::new(0, 0, 105), Vec3::new(30, 0, 0))).unwrap();
    world.step(1).unwrap();
    // Restitution (1000 + 0) / 2 = 500, friction (0 + 400) / 2 = 200.
    assert_eq!(world.velocity(h), Ok(Vec3::new(24, 0, 5)));
}

#[test]
fn separating_ball_is_pushed_out_but_keeps_its_velocity() {
    let mut world = PhysicsWorld::new();
    world.add_rigid_body(plane(Vec3::new(0, 0, 1), 500, 200, Vec3::new(0, 0, 0))).unwrap();
    let h = world.add_rigid_body(ball(100, 1, 500, 200, Vec3::new(0, 0, 90), Vec3::new(8, 0, 3))).unwrap();
    world.step(1).unwrap();
    assert_eq!(world.position(h), Ok(Vec3::new(8, 0, 100)));
    assert_eq!(world.velocity(h), Ok(Vec3::new(8, 0, 3)));
}

#[test]
fn wall_with_negative_normal_pushes_back() {
    let mut world = PhysicsWorld::new();
    world.add_rigid_body(plane(Vec3::new(-1, 0, 0), 0, 0, Vec3::new(50, 0, 0))).unwrap();
    let h = world.add_rigid_body(ball(10, 1, 0, 0, Vec3::new(30, 0, 0), Vec3::new(15, 0, 2))).unwrap();
    world.step(1).unwrap();
    // Integrated to x = 45, that is five in front of the wall: pushed back to 40 and stopped.
    assert_eq!(world.position(h), Ok(Vec3::new(40, 0, 2)));
    assert_eq!(world.velocity(h), Ok(Vec3::new(0, 0, 2)));
}

#[test]
fn ball_stops_on_fixed_ball_without_restitution() {
    let mut world = PhysicsWorld::new();
    let rock = world.add_rigid_body(fixed_ball(10, 0, 0, Vec3::new(0, 0, 0))).unwrap();
    let h = world.add_rigid_body(ball(10, 1, 0, 0, Vec3::new(0, 0, 25), Vec3::new(0, 0, -10))).unwrap();
    world.step(1).unwrap();
    assert_eq!(world.position(h), Ok(Vec3::new(0, 0, 15)));
    assert_eq!(world.velocity(h), Ok(Vec3::new(0, 0, 0)));
    assert_eq!(world.position(rock), Ok(Vec3::new(0, 0, 0)));
    assert_eq!(world.velocity(rock), Ok(Vec3::new(0, 0, 0)));
}

#[test]
fn ball_bounces_off_fixed_ball_with_full_restitution() {
    let mut world = PhysicsWorld::new();
    world.add_rigid_body(fixed_ball(10, 1000, 0, Vec3::new(0, 0, 0))).unwrap();
    let h = world.add_rigid_body(ball(10, 1, 1000, 0, Vec3::new(0, 0, 25), Vec3::new(0, 0, -10))).unwrap();
    world.step(1).unwrap();
    assert_eq!(world.velocity(h), Ok(Vec3::new(0, 0, 10)));
}

#[test]
fn two_dynamic_balls_share_the_change_by_mass() {
    let mut world = PhysicsWorld::new();
    let light = world.add_rigid_body(ball(10, 1, 1000, 0, Vec3::new(0, 0, 0), Vec3::new(10, 0, 0))).unwrap();
    let heavy = world.add_rigid_body(ball(10, 3, 1000, 0, Vec3::new(15, 0, 0), Vec3::new(0, 0, 0))).unwrap();
    world.step(1).unwrap();
    // Relative velocity 10 is turned round; the light ball takes three quarters of the change.
    assert_eq!(world.velocity(light), Ok(Vec3::new(-5, 0, 0)));
    assert_eq!(world.velocity(heavy), Ok(Vec3::new(5, 0, 0)));
    assert_eq!(world.position(light), Ok(Vec3::new(10, 0, 0)));
    assert_eq!(world.position(heavy), Ok(Vec3::new(15, 0, 0)));
}

#[test]
fn balls_with_one_centre_do_not_respond() {
    let mut world = PhysicsWorld::new();
    let a = world.add_rigid_body(ball(10, 1, 500, 500, Vec3::new(0, 0, 0), Vec3::new(0, 0, 0))).unwrap();
    let b = world.add_rigid_body(ball(10, 1, 500, 500, Vec3::new(0, 0, 0), Vec3::new(0, 0, 0))).unwrap();
    world.step(1).unwrap();
    assert_eq!(world.velocity(a), Ok(Vec3::new(0, 0, 0)));
    assert_eq!(world.velocity(b), Ok(Vec3::new(0, 0, 0)));
}

#[test]
fn step_is_deterministic() {
    let build = || {
        let mut world = PhysicsWorld::new();
        world.set_gravity(Vec3::new(0, 0, -2725));
        world.add_rigid_body(plane(Vec3::new(0, 0, 1), 300, 600, Vec3::new(0, 0, -15_000_000))).unwrap();
        world.add_rigid_body(fixed_ball(1_000_000, 300, 600, Vec3::new(100_000, 0, -5_000_000))).unwrap();
        for i in 0..5 {
            world
                .add_rigid_body(ball(1_000_000, 1, 300, 600, Vec3::new(i * 1000, 500, i * 1_500_000), Vec3::new(0, 0, 0)))
                .unwrap();
        }
        world
    };
    let mut first = build();
    let mut second = build();
    for _ in 0..400 {
        assert_eq!(first.step(1), second.step(1));
        for i in 0..first.len() {
            let h = RigidBodyHandle { index: i };
            assert_eq!(first.body(h), second.body(h));
        }
    }
}

#[test]
fn ball_falls_to_the_floor_and_does_not_go_through() {
    let mut world = PhysicsWorld::new();
    world.set_gravity(Vec3::new(0, 0, -2725));
    // Micrometres and sixtieths of a second: a floor at -15 m, a ball of 1 m at 50 m.
    let floor_height = -15_000_000;
    let radius = 1_000_000;
    world.add_rigid_body(plane(Vec3::new(0, 0, 1), 300, 600, Vec3::new(0, 0, floor_height))).unwrap();
    let h = world.add_rigid_body(ball(radius, 1, 300, 600, Vec3::new(0, 0, 50_000_000), Vec3::new(0, 0, 0))).unwrap();
    let mut last = world.position(h).unwrap().z;
    let mut ticks = 0;
    let mut landed = false;
    while !landed {
        world.step(1).unwrap();
        ticks += 1;
        assert!(ticks < 1000);
        let z = world.position(h).unwrap().z;
        assert!(z <= last);
        assert!(z - radius >= floor_height);
        landed = world.velocity(h).unwrap().z >= 0;
        last = z;
    }
    assert_eq!(last, floor_height + radius);
    // 64 m at 9.81 m/s^2 take 3.61 s, that is 217 sixtieths.
    assert_eq!(ticks, 217);
    for _ in 0..600 {
        world.step(1).unwrap();
        assert!(world.position(h).unwrap().z - radius >= floor_height);
    }
}

#[test]
fn body_defects_are_named() {
    let zero = Vec3::new(0, 0, 0);
    assert_eq!(RigidBody::new_static(Shape::Ball { radius: 0 }, 0, 0), Err(BodyError::NonPositiveRadius));
    assert_eq!(RigidBody::new_dynamic(Shape::Ball { radius: -3 }, 1, 0, 0), Err(BodyError::NonPositiveRadius));
    assert_eq!(
        RigidBody::new_static(Shape::HalfSpace { normal: zero }, 0, 0),
        Err(BodyError::NormalNotAxisUnit)
    );
    assert_eq!(
        RigidBody::new_static(Shape::HalfSpace { normal: Vec3::new(1, 1, 0) }, 0, 0),
        Err(BodyError::NormalNotAxisUnit)
    );
    assert_eq!(
        RigidBody::new_static(Shape::HalfSpace { normal: Vec3::new(0, 2, 0) }, 0, 0),
        Err(BodyError::NormalNotAxisUnit)
    );
    assert_eq!(RigidBody::new_static(Shape::Ball { radius: 1 }, 1001, 0), Err(BodyError::RestitutionAboveOne));
    assert_eq!(RigidBody::new_static(Shape::Ball { radius: 1 }, 1000, 1001), Err(BodyError::FrictionAboveOne));
    assert_eq!(RigidBody::new_dynamic(Shape::Ball { radius: 1 }, 0, 0, 0), Err(BodyError::ZeroMass));
    assert_eq!(
        RigidBody::new_dynamic(Shape::HalfSpace { normal: Vec3::new(0, 0, -1) }, 1, 0, 0),
        Err(BodyError::DynamicHalfSpace)
    );
    let moving = RigidBody {
        shape: Shape::Ball { radius: 1 },
        mass: Mass::Static,
        restitution: 0,
        friction: 0,
        position: zero,
        velocity: Vec3::new(0, 1, 0),
    };
    assert_eq!(moving.validate(), Err(BodyError::MovingStatic));
    let mut world = PhysicsWorld::new();
    assert_eq!(world.add_rigid_body(moving), Err(BodyError::MovingStatic));
    assert_eq!(world.len(), 0);
}

#[test]
fn well_formed_bodies_are_accepted() {
    let body = RigidBody::new_dynamic(Shape::Ball { radius: 1 }, 1, 1000, 1000).unwrap();
    assert_eq!(body.validate(), Ok(()));
    assert_eq!(body.mass, Mass::Dynamic { mass: 1 });
    assert_eq!(body.position, Vec3::new(0, 0, 0));
    assert_eq!(body.velocity, Vec3::new(0, 0, 0));
    for normal in [
        Vec3::new(1, 0, 0),
        Vec3::new(-1, 0, 0),
        Vec3::new(0, 1, 0),
        Vec3::new(0, -1, 0),
        Vec3::new(0, 0, 1),
        Vec3::new(0, 0, -1),
    ] {
        assert!(normal.check_axis_unit());
        assert!(RigidBody::new_static(Shape::HalfSpace { normal }, 300, 600).is_ok());
    }
}

#[test]
fn translation_out_of_range_leaves_the_body() {
    let mut body = RigidBody::new_static(Shape::Ball { radius: 1 }, 0, 0).unwrap();
    assert_eq!(body.append_translation(&Vec3::new(i32::MAX, -5, 0)), Ok(()));
    assert_eq!(body.append_translation(&Vec3::new(1, 0, 0)), Err(BodyError::OutOfRange));
    assert_eq!(body.position, Vec3::new(i32::MAX, -5, 0));
    assert_eq!(body.append_translation(&Vec3::new(-1, 5, 7)), Ok(()));
    assert_eq!(body.position, Vec3::new(i32::MAX - 1, 0, 7));
}

#[test]
fn vector_sum_is_checked() {
    assert_eq!(Vec3::new(1, 2, 3).checked_add(&Vec3::new(10, 20, 30)), Some(Vec3::new(11, 22, 33)));
    assert_eq!(Vec3::new(0, i32::MIN, 0).checked_add(&Vec3::new(0, -1, 0)), None);
    assert_eq!(Vec3::zero(), Vec3::new(0, 0, 0));
}

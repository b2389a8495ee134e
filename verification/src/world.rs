//! The entities and their components, and the two operations of a frame on
//! them: stepping the physics world and copying positions into transforms.

use vstd::prelude::*;
use crate::body::RigidBody;
use crate::physics::{PhysicsError, PhysicsState, PhysicsWorld, RigidBodyHandle};
use crate::storage::{Entity, Storage};
use crate::vector::Vec3;

verus! {

/// Where an entity is drawn.
#[derive(Clone, Copy, Debug, PartialEq, Eq, Structural)]
pub struct LocalTransform {
    pub translation: Vec3,
}

impl Default for LocalTransform {
    fn default() -> (t: LocalTransform)
        ensures
            t == (LocalTransform { translation: Vec3 { x: 0, y: 0, z: 0 } }),
    {
        LocalTransform { translation: Vec3::zero() }
    }
}

/// The component that ties an entity to one body of the physics world.
#[derive(Clone, Copy, Debug, PartialEq, Eq, Structural)]
pub struct Ball {
    pub body: RigidBodyHandle,
}

impl Ball {
    /// The component that refers to `body`.
    pub fn new(body: RigidBodyHandle) -> (ball: Ball)
        ensures
            ball == (Ball { body }),
    {
        Ball { body: body }
    }
}

/// The component that holds the one physics world.
pub struct PhysicsWorldRef {
    pub world: PhysicsWorld,
}

impl PhysicsWorldRef {
    /// The component that holds `world`.
    pub fn new(world: PhysicsWorld) -> (r: PhysicsWorldRef)
        ensures
            r.world == world,
    {
        PhysicsWorldRef { world: world }
    }
}

/// The kinds of component that an entity can have.
#[derive(Clone, Copy, Debug, PartialEq, Eq, Structural)]
pub enum Kind {
    LocalTransform,
    Ball,
    PhysicsWorld,
}

/// Why the world refused to attach a component.
#[derive(Clone, Copy, Debug, PartialEq, Eq, Structural)]
pub enum WorldError {
    /// The entity was not created by this world.
    UnknownEntity,
    /// Another entity holds the physics world already.
    PhysicsWorldExists,
}

/// Why a system failed. A failure ends the tick it happens in.
#[derive(Clone, Copy, Debug, PartialEq, Eq, Structural)]
pub enum SystemError {
    /// No entity holds a physics world.
    MissingPhysicsWorld,
    /// The physics world refused the operation.
    Physics(PhysicsError),
}

/// The failure of a system that stands for a refusal of the physics world.
pub open spec fn lifted(r: Result<(), PhysicsError>) -> Result<(), SystemError> {
    match r {
        Ok(()) => Ok(()),
        Err(e) => Err(SystemError::Physics(e)),
    }
}

/// The transforms after the positions of `bodies` have been copied into
/// them: that of an entity with a ball holds the position of the ball's
/// body, all others are as they were.
pub open spec fn copied_positions(
    transforms: Map<usize, LocalTransform>,
    balls: Map<usize, Ball>,
    bodies: Seq<RigidBody>,
) -> Map<usize, LocalTransform> {
    Map::new(
        |id: usize| transforms.contains_key(id),
        |id: usize|
            if balls.contains_key(id) {
                LocalTransform { translation: bodies[balls[id].body.index as int].position }
            } else {
                transforms[id]
            },
    )
}

/// Whether some entity with a transform has a ball whose handle refers to none of `count` bodies.
pub open spec fn some_handle_dangles(
    transforms: Map<usize, LocalTransform>,
    balls: Map<usize, Ball>,
    count: nat,
) -> bool {
    exists|id: usize|
        transforms.contains_key(id) && #[trigger] balls.contains_key(id) && balls[id].body.index
            >= count
}

/// Whether `id` is among the ids of `found`.
pub open spec fn lists(found: Seq<Entity>, id: usize) -> bool {
    exists|k: int| 0 <= k < found.len() && (#[trigger] found[k]).id == id
}

/// What a world holds: how many entities were created (their ids are the
/// numbers below that count), the components of each kind by entity id,
/// and the physics world with the entity that holds it.
pub struct WorldState {
    pub entity_count: nat,
    pub transforms: Map<usize, LocalTransform>,
    pub balls: Map<usize, Ball>,
    pub physics_entity: Option<Entity>,
    pub physics: Option<PhysicsState>,
}

impl WorldState {
    /// Components belong to entities that were created, at most one entity
    /// holds a physics world, and that world is well formed.
    pub open spec fn wf(self) -> bool {
        &&& forall|id: usize| #[trigger] self.transforms.contains_key(id) ==> id < self.entity_count
        &&& forall|id: usize| #[trigger] self.balls.contains_key(id) ==> id < self.entity_count
        &&& self.physics_entity is Some <==> self.physics is Some
        &&& self.physics_entity matches Some(e) ==> e.id < self.entity_count
        &&& self.physics matches Some(w) ==> w.wf()
    }

    /// Whether the entity with this id has a component of this kind.
    pub open spec fn holds(self, id: usize, kind: Kind) -> bool {
        match kind {
            Kind::LocalTransform => self.transforms.contains_key(id),
            Kind::Ball => self.balls.contains_key(id),
            Kind::PhysicsWorld => self.physics_entity == Some(Entity { id }),
        }
    }

    /// Whether the entity with this id has a component of each of these kinds.
    pub open spec fn holds_all(self, id: usize, kinds: Seq<Kind>) -> bool {
        forall|k: int| 0 <= k < kinds.len() ==> self.holds(id, #[trigger] kinds[k])
    }

    /// Whether the transform of every entity with a ball holds exactly the
    /// position of the ball's body.
    pub open spec fn in_sync(self) -> bool {
        &&& self.physics is Some
        &&& forall|id: usize|
            self.transforms.contains_key(id) && #[trigger] self.balls.contains_key(id) ==> {
                &&& self.physics->0.knows(self.balls[id].body)
                &&& self.transforms[id].translation == self.physics->0.bodies[self.balls[id].body.index as int].position
            }
    }

    /// The state after the physics world has been advanced by `dt`, and how
    /// that ends: it fails where no entity holds a physics world, and where
    /// the physics world refuses the step. A failure changes nothing.
    pub open spec fn step_physics(self, dt: int) -> (WorldState, Result<(), SystemError>) {
        match self.physics {
            None => (self, Err(SystemError::MissingPhysicsWorld)),
            Some(w) => (WorldState { physics: Some(w.step(dt).0), ..self }, lifted(w.step(dt).1)),
        }
    }

    /// The state after positions have been copied into transforms, and how
    /// that ends: it fails where no entity holds a physics world, and where
    /// a handle dangles. A failure changes nothing.
    pub open spec fn sync_transforms(self) -> (WorldState, Result<(), SystemError>) {
        match self.physics {
            None => (self, Err(SystemError::MissingPhysicsWorld)),
            Some(w) => if some_handle_dangles(self.transforms, self.balls, w.bodies.len()) {
                (self, Err(SystemError::Physics(PhysicsError::UnknownHandle)))
            } else {
                (
                    WorldState {
                        transforms: copied_positions(self.transforms, self.balls, w.bodies),
                        ..self
                    },
                    Ok(()),
                )
            },
        }
    }
}

/// The entities and their components.
pub struct World {
    count: usize,
    transforms: Storage<LocalTransform>,
    balls: Storage<Ball>,
    physics: Option<(Entity, PhysicsWorldRef)>,
}

impl View for World {
    type V = WorldState;

    closed spec fn view(&self) -> WorldState {
        WorldState {
            entity_count: self.count as nat,
            transforms: self.transforms@,
            balls: self.balls@,
            physics_entity: match self.physics {
                Some((e, _)) => Some(e),
                None => None,
            },
            physics: match self.physics {
                Some((_, r)) => Some(r.world@),
                None => None,
            },
        }
    }
}

impl World {
    /// See [`WorldState::wf`].
    pub open spec fn wf(&self) -> bool {
        self@.wf()
    }

    /// A world without entities.
    pub fn new() -> (w: World)
        ensures
            w.wf(),
            w@ == (WorldState {
                entity_count: 0,
                transforms: Map::<usize, LocalTransform>::empty(),
                balls: Map::<usize, Ball>::empty(),
                physics_entity: None,
                physics: None,
            }),
    {
        World { count: 0, transforms: Storage::new(), balls: Storage::new(), physics: None }
    }

    /// The number of entities created so far.
    pub fn entities(&self) -> (n: usize)
        ensures
            n == self@.entity_count,
    {
        self.count
    }

    /// Creates an entity without components.
    pub fn create_entity(&mut self) -> (e: Entity)
        requires
            old(self).wf(),
            old(self)@.entity_count < usize::MAX,
        ensures
            final(self).wf(),
            e.id == old(self)@.entity_count,
            final(self)@ == (WorldState {
                entity_count: old(self)@.entity_count + 1,
                ..old(self)@
            }),
    {
        let e = Entity { id: self.count };
        self.count = self.count + 1;
        proof {
            lemma_components_kept(old(self)@, self@);
        }
        e
    }

    /// Gives `entity` a transform, in place of the one that it had, if any.
    pub fn attach_transform(&mut self, entity: Entity, transform: LocalTransform) -> (r: Result<
        (),
        WorldError,
    >)
        requires
            old(self).wf(),
        ensures
            final(self).wf(),
            if entity.id < old(self)@.entity_count {
                r is Ok && final(self)@ == (WorldState {
                    transforms: old(self)@.transforms.insert(entity.id, transform),
                    ..old(self)@
                })
            } else {
                r == Err::<(), WorldError>(WorldError::UnknownEntity) && final(self)@ == old(self)@
            },
    {
        if entity.id < self.count {
            self.transforms.attach(entity, transform);
            assert forall|id: usize| #[trigger]
                self@.transforms.contains_key(id) implies id < self@.entity_count by {
                if id != entity.id {
                    assert(old(self)@.transforms.contains_key(id));
                }
            }
            proof {
                lemma_balls_kept(old(self)@, self@);
            }
            Ok(())
        } else {
            Err(WorldError::UnknownEntity)
        }
    }

    /// Gives `entity` a ball, in place of the one that it had, if any.
    pub fn attach_ball(&mut self, entity: Entity, ball: Ball) -> (r: Result<(), WorldError>)
        requires
            old(self).wf(),
        ensures
            final(self).wf(),
            if entity.id < old(self)@.entity_count {
                r is Ok && final(self)@ == (WorldState {
                    balls: old(self)@.balls.insert(entity.id, ball),
                    ..old(self)@
                })
            } else {
                r == Err::<(), WorldError>(WorldError::UnknownEntity) && final(self)@ == old(self)@
            },
    {
        if entity.id < self.count {
            self.balls.attach(entity, ball);
            assert forall|id: usize| #[trigger]
                self@.balls.contains_key(id) implies id < self@.entity_count by {
                if id != entity.id {
                    assert(old(self)@.balls.contains_key(id));
                }
            }
            proof {
                lemma_transforms_kept(old(self)@, self@);
            }
            Ok(())
        } else {
            Err(WorldError::UnknownEntity)
        }
    }

    /// Gives `entity` the physics world, in place of the one that it held,
    /// if any. Refused where another entity holds one.
    pub fn attach_physics_world(&mut self, entity: Entity, physics: PhysicsWorldRef) -> (r: Result<
        (),
        WorldError,
    >)
        requires
            old(self).wf(),
            physics.world.wf(),
        ensures
            final(self).wf(),
            if entity.id >= old(self)@.entity_count {
                r == Err::<(), WorldError>(WorldError::UnknownEntity)
            } else if old(self)@.physics_entity is Some && old(self)@.physics_entity != Some(
                entity,
            ) {
                r == Err::<(), WorldError>(WorldError::PhysicsWorldExists)
            } else {
                r is Ok
            },
            r is Ok ==> final(self)@ == (WorldState {
                physics_entity: Some(entity),
                physics: Some(physics.world@),
                ..old(self)@
            }),
            r is Err ==> final(self)@ == old(self)@,
    {
        if entity.id >= self.count {
            return Err(WorldError::UnknownEntity);
        }
        let taken: bool = match &self.physics {
            Some((holder, _)) => holder.id != entity.id,
            None => false,
        };
        if taken {
            return Err(WorldError::PhysicsWorldExists);
        }
        self.physics = Some((entity, physics));
        proof {
            lemma_components_kept(old(self)@, self@);
        }
        Ok(())
    }

    /// The transform of `entity`, if it has one.
    pub fn transform(&self, entity: Entity) -> (r: Option<LocalTransform>)
        ensures
            r == (if self@.transforms.contains_key(entity.id) {
                Some(self@.transforms[entity.id])
            } else {
                None
            }),
    {
        match self.transforms.get(entity) {
            Some(t) => Some(*t),
            None => None,
        }
    }

    /// The ball of `entity`, if it has one.
    pub fn ball(&self, entity: Entity) -> (r: Option<Ball>)
        ensures
            r == (if self@.balls.contains_key(entity.id) {
                Some(self@.balls[entity.id])
            } else {
                None
            }),
    {
        match self.balls.get(entity) {
            Some(b) => Some(*b),
            None => None,
        }
    }

    /// The physics world, if an entity holds one.
    pub fn physics_world(&self) -> (r: Option<&PhysicsWorld>)
        ensures
            match r {
                Some(w) => self@.physics == Some(w@) && (self.wf() ==> w.wf()),
                None => self@.physics is None,
            },
    {
        match &self.physics {
            Some((_, r)) => Some(&r.world),
            None => None,
        }
    }

    /// Whether `entity` has a component of this kind.
    pub fn has(&self, entity: Entity, kind: Kind) -> (b: bool)
        ensures
            b == self@.holds(entity.id, kind),
    {
        match kind {
            Kind::LocalTransform => self.transforms.has(entity),
            Kind::Ball => self.balls.has(entity),
            Kind::PhysicsWorld => match &self.physics {
                Some((holder, _)) => holder.id == entity.id,
                None => false,
            },
        }
    }

    /// Whether `entity` has a component of each of these kinds.
    pub fn has_all(&self, entity: Entity, kinds: &Vec<Kind>) -> (b: bool)
        ensures
            b == self@.holds_all(entity.id, kinds@),
    {
        let mut k: usize = 0;
        while k < kinds.len()
            invariant
                k <= kinds@.len(),
                forall|j: int| 0 <= j < k ==> self@.holds(entity.id, #[trigger] kinds@[j]),
            decreases kinds@.len() - k,
        {
            if !self.has(entity, kinds[k]) {
                return false;
            }
            k += 1;
        }
        true
    }

    /// The entities that have a component of each of these kinds, by rising id.
    pub fn query(&self, kinds: &Vec<Kind>) -> (found: Vec<Entity>)
        ensures
            forall|a: int, b: int|
                0 <= a < b < found@.len() ==> (#[trigger] found@[a]).id < (#[trigger] found@[b]).id,
            forall|id: usize|
                #[trigger] lists(found@, id) <==> id < self@.entity_count && self@.holds_all(
                    id,
                    kinds@,
                ),
    {
        let mut found: Vec<Entity> = Vec::new();
        let mut id: usize = 0;
        while id < self.count
            invariant
                id <= self.count,
                forall|a: int, b: int|
                    0 <= a < b < found@.len() ==> (#[trigger] found@[a]).id < (
                    #[trigger] found@[b]).id,
                forall|k: int| 0 <= k < found@.len() ==> (#[trigger] found@[k]).id < id,
                forall|other: usize|
                    #[trigger] lists(found@, other) <==> other < id && self@.holds_all(
                        other,
                        kinds@,
                    ),
            decreases self.count - id,
        {
            let ghost before = found@;
            if self.has_all(Entity { id }, kinds) {
                found.push(Entity { id });
                assert forall|other: usize| #[trigger]
                    lists(found@, other) <==> other < id + 1 && self@.holds_all(
                        other,
                        kinds@,
                    ) by {
                    if lists(found@, other) {
                        let k = choose|k: int| 0 <= k < found@.len() && (#[trigger] found@[k]).id == other;
                        if k < before.len() {
                            assert(before[k].id == other);
                            assert(lists(before, other));
                        }
                    }
                    if other < id && self@.holds_all(other, kinds@) {
                        assert(lists(before, other));
                        let k = choose|k: int| 0 <= k < before.len() && (#[trigger] before[k]).id == other;
                        assert(found@[k].id == other);
                    }
                    if other == id {
                        assert(found@[found@.len() - 1].id == other);
                    }
                }
            } else {
                assert forall|other: usize| #[trigger]
                    lists(found@, other) <==> other < id + 1 && self@.holds_all(
                        other,
                        kinds@,
                    ) by {
                    if lists(found@, other) {
                        assert(other < id);
                    }
                }
            }
            id += 1;
        }
        found
    }

    /// Advances the physics world by `dt`: see [`PhysicsWorld::step`].
    /// Fails where no entity holds a physics world. Entities, transforms
    /// and balls stay as they are.
    pub fn step_physics(&mut self, dt: i64) -> (r: Result<(), SystemError>)
        requires
            old(self).wf(),
        ensures
            final(self).wf(),
            (final(self)@, r) == old(self)@.step_physics(dt as int),
    {
        let r = match &mut self.physics {
            None => Err(SystemError::MissingPhysicsWorld),
            Some((_, holder)) => match holder.world.step(dt) {
                Ok(()) => Ok(()),
                Err(e) => Err(SystemError::Physics(e)),
            },
        };
        proof {
            lemma_components_kept(old(self)@, self@);
        }
        r
    }

    /// Copies the position of every ball's body into the transform of the
    /// ball's entity, component by component. Entities without a transform
    /// or without a ball are passed over, and the physics world is only read.
    ///
    /// Fails where no entity holds a physics world, or where a ball of an
    /// entity with a transform refers to no body; the transforms then stay
    /// as they are.
    pub fn sync_transforms(&mut self) -> (r: Result<(), SystemError>)
        requires
            old(self).wf(),
        ensures
            final(self).wf(),
            (final(self)@, r) == old(self)@.sync_transforms(),
            r is Ok ==> final(self)@.in_sync(),
    {
        let n: usize = self.count;
        let physics: &PhysicsWorld = match &self.physics {
            Some((_, holder)) => &holder.world,
            None => {
                return Err(SystemError::MissingPhysicsWorld);
            },
        };
        let ghost before: Map<usize, LocalTransform> = self.transforms@;
        let ghost balls: Map<usize, Ball> = self.balls@;
        let ghost bodies: Seq<RigidBody> = physics@.bodies;
        let mut id: usize = 0;
        while id < n
            invariant
                id <= n,
                old(self).wf(),
                self.count == old(self).count,
                self.physics == old(self).physics,
                old(self)@.physics == Some(physics@),
                before == old(self).transforms@,
                balls == old(self).balls@,
                self.transforms@ == before,
                self.balls@ == balls,
                physics@.bodies == bodies,
                forall|other: usize|
                    other < id && before.contains_key(other) && #[trigger] balls.contains_key(other)
                        ==> balls[other].body.index < bodies.len(),
            decreases n - id,
        {
            let entity = Entity { id };
            if self.transforms.has(entity) {
                match self.balls.get(entity) {
                    Some(ball) => {
                        if !physics.contains(ball.body) {
                            assert(before.contains_key(id) && balls.contains_key(id)
                                && balls[id].body.index >= bodies.len());
                            return Err(SystemError::Physics(PhysicsError::UnknownHandle));
                        }
                    },
                    None => {},
                }
            }
            id += 1;
        }
        assert(!some_handle_dangles(before, balls, bodies.len())) by {
            assert forall|other: usize|
                before.contains_key(other) && #[trigger] balls.contains_key(other) implies balls[other].body.index
                < bodies.len() by {
                assert(old(self)@.balls.contains_key(other));
            }
        }
        id = 0;
        while id < n
            invariant
                id <= n,
                n == old(self).count,
                old(self).wf(),
                self.count == old(self).count,
                self.physics == old(self).physics,
                old(self)@.physics == Some(physics@),
                before == old(self).transforms@,
                balls == old(self).balls@,
                self.balls@ == balls,
                physics@.bodies == bodies,
                forall|other: usize|
                    before.contains_key(other) && #[trigger] balls.contains_key(other)
                        ==> balls[other].body.index < bodies.len(),
                self.transforms@ =~= Map::new(
                    |other: usize| before.contains_key(other),
                    |other: usize|
                        if other < id && balls.contains_key(other) {
                            LocalTransform {
                                translation: bodies[balls[other].body.index as int].position,
                            }
                        } else {
                            before[other]
                        },
                ),
            decreases n - id,
        {
            let entity = Entity { id };
            if self.transforms.has(entity) {
                match self.balls.get(entity) {
                    Some(ball) => {
                        match physics.position(ball.body) {
                            Ok(position) => {
                                self.transforms.attach(
                                    entity,
                                    LocalTransform { translation: position },
                                );
                            },
                            Err(_) => {},
                        }
                    },
                    None => {},
                }
            }
            id += 1;
        }
        assert(self.transforms@ =~= copied_positions(before, balls, bodies)) by {
            assert forall|other: usize| before.contains_key(other) implies other < n by {
                assert(old(self)@.transforms.contains_key(other));
            }
        }
        assert forall|id: usize| #[trigger]
            self@.transforms.contains_key(id) implies id < self@.entity_count by {
            assert(old(self)@.transforms.contains_key(id));
        }
        proof {
            lemma_balls_kept(old(self)@, self@);
        }
        Ok(())
    }
}

/// Transforms that are the same as in a well-formed state with no more entities are in range.
proof fn lemma_transforms_kept(before: WorldState, after: WorldState)
    requires
        before.wf(),
        after.transforms == before.transforms,
        after.entity_count >= before.entity_count,
    ensures
        forall|id: usize| #[trigger] after.transforms.contains_key(id) ==> id < after.entity_count,
{
    assert forall|id: usize| #[trigger]
        after.transforms.contains_key(id) implies id < after.entity_count by {
        assert(before.transforms.contains_key(id));
    }
}

/// Balls that are the same as in a well-formed state with no more entities are in range.
proof fn lemma_balls_kept(before: WorldState, after: WorldState)
    requires
        before.wf(),
        after.balls == before.balls,
        after.entity_count >= before.entity_count,
    ensures
        forall|id: usize| #[trigger] after.balls.contains_key(id) ==> id < after.entity_count,
{
    assert forall|id: usize| #[trigger] after.balls.contains_key(id) implies id < after.entity_count by {
        assert(before.balls.contains_key(id));
    }
}

proof fn lemma_components_kept(before: WorldState, after: WorldState)
    requires
        before.wf(),
        after.transforms == before.transforms,
        after.balls == before.balls,
        after.entity_count >= before.entity_count,
    ensures
        forall|id: usize| #[trigger] after.transforms.contains_key(id) ==> id < after.entity_count,
        forall|id: usize| #[trigger] after.balls.contains_key(id) ==> id < after.entity_count,
{
    lemma_transforms_kept(before, after);
    lemma_balls_kept(before, after);
}

} // verus!

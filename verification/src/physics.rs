//! The physics world: the bodies, gravity and the clock, and the step that
//! advances them.

use vstd::prelude::*;
use crate::body::{BodyError, RigidBody};
use crate::contact::{in_contact, overlap, respond, response};
use crate::motion::{advance, advanced};
use crate::vector::Vec3;

verus! {

/// A reference to one body of a physics world: a plain value that can be
/// copied and stored, and that never owns the body.
#[derive(Clone, Copy, Debug, PartialEq, Eq, Structural)]
pub struct RigidBodyHandle {
    pub index: usize,
}

/// Why the physics world refused an operation.
#[derive(Clone, Copy, Debug, PartialEq, Eq, Structural)]
pub enum PhysicsError {
    /// The step's duration was negative.
    NegativeDt,
    /// The clock cannot count the time after the step.
    ClockOverflow,
    /// A body's state after the step cannot be stored.
    OutOfRange,
    /// The handle refers to no body of this world.
    UnknownHandle,
}

/// Whether every body can be integrated over `dt`.
pub open spec fn all_advance(bodies: Seq<RigidBody>, g: Vec3, dt: int) -> bool {
    forall|i: int| 0 <= i < bodies.len() ==> (#[trigger] advanced(bodies[i], g, dt)) is Some
}

/// The bodies after integration, before any contact is resolved.
pub open spec fn integrated(bodies: Seq<RigidBody>, g: Vec3, dt: int) -> Seq<RigidBody> {
    Seq::new(bodies.len(), |i: int| advanced(bodies[i], g, dt)->0)
}

/// Body `i` of `snap` after its contacts with the first `k` bodies of `snap`
/// have been resolved one after the other, in the order of their indices.
pub open spec fn resolved(snap: Seq<RigidBody>, i: int, k: int) -> Option<RigidBody>
    decreases k,
{
    if k <= 0 {
        Some(snap[i])
    } else {
        match resolved(snap, i, k - 1) {
            None => None,
            Some(run) => if k - 1 == i {
                Some(run)
            } else {
                response(run, snap[i], snap[k - 1])
            },
        }
    }
}

/// Whether every body's contacts can be resolved.
pub open spec fn all_resolve(snap: Seq<RigidBody>) -> bool {
    forall|i: int| 0 <= i < snap.len() ==> (#[trigger] resolved(snap, i, snap.len() as int)) is Some
}

/// The bodies after their contacts have been resolved.
pub open spec fn settled(snap: Seq<RigidBody>) -> Seq<RigidBody> {
    Seq::new(snap.len(), |i: int| resolved(snap, i, snap.len() as int)->0)
}

/// The bodies after a step of `dt >= 0`: as they were for `dt == 0`; else
/// integrated, and then each with its contacts resolved against the
/// integrated state of the others. `None` where a state cannot be stored.
pub open spec fn stepped(bodies: Seq<RigidBody>, g: Vec3, dt: int) -> Option<Seq<RigidBody>> {
    if dt == 0 {
        Some(bodies)
    } else if all_advance(bodies, g, dt) && all_resolve(integrated(bodies, g, dt)) {
        Some(settled(integrated(bodies, g, dt)))
    } else {
        None
    }
}

/// How a step of `dt` ends for a world with these bodies, gravity and clock.
pub open spec fn step_outcome(bodies: Seq<RigidBody>, g: Vec3, time: int, dt: int) -> Result<
    (),
    PhysicsError,
> {
    if dt < 0 {
        Err(PhysicsError::NegativeDt)
    } else if time + dt > u64::MAX {
        Err(PhysicsError::ClockOverflow)
    } else if stepped(bodies, g, dt) is None {
        Err(PhysicsError::OutOfRange)
    } else {
        Ok(())
    }
}

/// Once a contact cannot be resolved, the body's later contacts cannot be either.
pub proof fn lemma_resolved_none_stays(snap: Seq<RigidBody>, i: int, j: int, k: int)
    requires
        0 <= j <= k,
        resolved(snap, i, j) is None,
    ensures
        resolved(snap, i, k) is None,
    decreases k - j,
{
    if j < k {
        lemma_resolved_none_stays(snap, i, j, k - 1);
    }
}

/// A contact changes neither what a body is nor that it is well formed.
pub proof fn lemma_response_keeps_kind(run: RigidBody, snap: RigidBody, other: RigidBody)
    requires
        run.wf(),
        run.shape == snap.shape,
        run.mass == snap.mass,
        response(run, snap, other) is Some,
    ensures
        response(run, snap, other)->0.wf(),
        response(run, snap, other)->0.shape == run.shape,
        response(run, snap, other)->0.mass == run.mass,
        response(run, snap, other)->0.restitution == run.restitution,
        response(run, snap, other)->0.friction == run.friction,
{
}

/// What a physics world holds: the bodies in the order in which they were
/// added, gravity, and the time that all steps so far have taken together.
pub struct PhysicsState {
    pub bodies: Seq<RigidBody>,
    pub gravity: Vec3,
    pub time: int,
}

impl PhysicsState {
    /// Every body is well formed.
    pub open spec fn wf(self) -> bool {
        forall|i: int| 0 <= i < self.bodies.len() ==> (#[trigger] self.bodies[i]).wf()
    }

    /// Whether `handle` refers to a body.
    pub open spec fn knows(self, handle: RigidBodyHandle) -> bool {
        handle.index < self.bodies.len()
    }

    /// The state after a step of `dt`, and how the step ends: see
    /// [`step_outcome`] and [`stepped`]. A step that is refused changes nothing.
    pub open spec fn step(self, dt: int) -> (PhysicsState, Result<(), PhysicsError>) {
        match step_outcome(self.bodies, self.gravity, self.time, dt) {
            Ok(()) => (
                PhysicsState {
                    bodies: stepped(self.bodies, self.gravity, dt)->0,
                    gravity: self.gravity,
                    time: self.time + dt,
                },
                Ok(()),
            ),
            Err(e) => (self, Err(e)),
        }
    }
}

/// The physics world. It owns the bodies; handles only refer to them.
pub struct PhysicsWorld {
    bodies: Vec<RigidBody>,
    gravity: Vec3,
    clock: u64,
}

impl View for PhysicsWorld {
    type V = PhysicsState;

    closed spec fn view(&self) -> PhysicsState {
        PhysicsState { bodies: self.bodies@, gravity: self.gravity, time: self.clock as int }
    }
}

impl PhysicsWorld {
    /// The bodies, in the order in which they were added.
    pub open spec fn bodies(&self) -> Seq<RigidBody> {
        self@.bodies
    }

    /// The acceleration that acts on every dynamic body.
    pub open spec fn gravity(&self) -> Vec3 {
        self@.gravity
    }

    /// The time that all steps so far have taken together.
    pub open spec fn time(&self) -> int {
        self@.time
    }

    /// Every body of the world is well formed.
    pub open spec fn wf(&self) -> bool {
        self@.wf()
    }

    /// Whether `handle` refers to a body of this world.
    pub open spec fn knows(&self, handle: RigidBodyHandle) -> bool {
        self@.knows(handle)
    }

    /// A world without bodies or gravity, at time zero.
    pub fn new() -> (w: PhysicsWorld)
        ensures
            w.wf(),
            w@ == (PhysicsState {
                bodies: Seq::<RigidBody>::empty(),
                gravity: Vec3 { x: 0, y: 0, z: 0 },
                time: 0,
            }),
    {
        PhysicsWorld { bodies: Vec::new(), gravity: Vec3::zero(), clock: 0 }
    }

    /// Sets the acceleration that acts on every dynamic body.
    pub fn set_gravity(&mut self, gravity: Vec3)
        ensures
            final(self)@ == (PhysicsState { gravity, ..old(self)@ }),
    {
        self.gravity = gravity;
    }

    /// The acceleration that acts on every dynamic body.
    pub fn get_gravity(&self) -> (g: Vec3)
        ensures
            g == self.gravity(),
    {
        self.gravity
    }

    /// The time that all steps so far have taken together.
    pub fn clock(&self) -> (t: u64)
        ensures
            t == self.time(),
    {
        self.clock
    }

    /// The number of bodies.
    pub fn len(&self) -> (n: usize)
        ensures
            n == self.bodies().len(),
    {
        self.bodies.len()
    }

    /// Adds a body and hands out the handle that refers to it from now on.
    /// A body with a defect is refused and the world stays as it is.
    pub fn add_rigid_body(&mut self, body: RigidBody) -> (r: Result<RigidBodyHandle, BodyError>)
        requires
            old(self).wf(),
        ensures
            final(self).wf(),
            match body.defect() {
                None => r == Ok::<RigidBodyHandle, BodyError>(
                    RigidBodyHandle { index: old(self).bodies().len() as usize },
                ) && final(self)@ == (PhysicsState {
                    bodies: old(self).bodies().push(body),
                    ..old(self)@
                }),
                Some(e) => r == Err::<RigidBodyHandle, BodyError>(e) && final(self)@ == old(self)@,
            },
    {
        proof {
            body.lemma_defect_none_iff_wf();
        }
        match body.validate() {
            Ok(()) => {
                let index: usize = self.bodies.len();
                self.bodies.push(body);
                assert forall|i: int| 0 <= i < self@.bodies.len() implies (#[trigger] self@.bodies[i]).wf() by {
                    if i < index {
                        assert(old(self)@.bodies[i].wf());
                    }
                }
                Ok(RigidBodyHandle { index })
            },
            Err(e) => Err(e),
        }
    }

    /// Whether `handle` refers to a body of this world.
    pub fn contains(&self, handle: RigidBodyHandle) -> (b: bool)
        ensures
            b == self.knows(handle),
    {
        handle.index < self.bodies.len()
    }

    /// The body that `handle` refers to.
    pub fn body(&self, handle: RigidBodyHandle) -> (r: Result<RigidBody, PhysicsError>)
        ensures
            r == (if self.knows(handle) {
                Ok::<RigidBody, PhysicsError>(self.bodies()[handle.index as int])
            } else {
                Err::<RigidBody, PhysicsError>(PhysicsError::UnknownHandle)
            }),
    {
        if handle.index < self.bodies.len() {
            Ok(self.bodies[handle.index])
        } else {
            Err(PhysicsError::UnknownHandle)
        }
    }

    /// The current translation of the body that `handle` refers to.
    pub fn position(&self, handle: RigidBodyHandle) -> (r: Result<Vec3, PhysicsError>)
        ensures
            r == (if self.knows(handle) {
                Ok::<Vec3, PhysicsError>(self.bodies()[handle.index as int].position)
            } else {
                Err::<Vec3, PhysicsError>(PhysicsError::UnknownHandle)
            }),
    {
        if handle.index < self.bodies.len() {
            Ok(self.bodies[handle.index].position)
        } else {
            Err(PhysicsError::UnknownHandle)
        }
    }

    /// The current velocity of the body that `handle` refers to.
    pub fn velocity(&self, handle: RigidBodyHandle) -> (r: Result<Vec3, PhysicsError>)
        ensures
            r == (if self.knows(handle) {
                Ok::<Vec3, PhysicsError>(self.bodies()[handle.index as int].velocity)
            } else {
                Err::<Vec3, PhysicsError>(PhysicsError::UnknownHandle)
            }),
    {
        if handle.index < self.bodies.len() {
            Ok(self.bodies[handle.index].velocity)
        } else {
            Err(PhysicsError::UnknownHandle)
        }
    }

    /// Whether two bodies are in contact as they stand: see [`in_contact`].
    pub fn touching(&self, a: RigidBodyHandle, b: RigidBodyHandle) -> (r: Result<
        bool,
        PhysicsError,
    >)
        ensures
            r == (if self.knows(a) && self.knows(b) {
                Ok::<bool, PhysicsError>(
                    a.index != b.index && in_contact(
                        self.bodies()[a.index as int],
                        self.bodies()[b.index as int],
                    ),
                )
            } else {
                Err::<bool, PhysicsError>(PhysicsError::UnknownHandle)
            }),
    {
        if a.index < self.bodies.len() && b.index < self.bodies.len() {
            let first = &self.bodies[a.index];
            let second = &self.bodies[b.index];
            let movable: bool = match (first.mass, second.mass) {
                (crate::body::Mass::Static, crate::body::Mass::Static) => false,
                _ => true,
            };
            Ok(a.index != b.index && movable && overlap(first, second))
        } else {
            Err(PhysicsError::UnknownHandle)
        }
    }

    /// Advances the world by `dt`.
    ///
    /// Every dynamic body is integrated, its velocity first and its position
    /// with the new velocity; then each body's contacts with the others, as
    /// they stand after integration, are resolved in the order of the
    /// others' indices; then the clock advances by `dt`. A step of zero
    /// changes nothing. Where the step is refused the world stays as it is.
    pub fn step(&mut self, dt: i64) -> (r: Result<(), PhysicsError>)
        requires
            old(self).wf(),
        ensures
            final(self).wf(),
            (final(self)@, r) == old(self)@.step(dt as int),
            final(self).bodies().len() == old(self).bodies().len(),
    {
        if dt < 0 {
            return Err(PhysicsError::NegativeDt);
        }
        let time: u64 = match self.clock.checked_add(dt as u64) {
            Some(t) => t,
            None => {
                return Err(PhysicsError::ClockOverflow);
            },
        };
        if dt == 0 {
            return Ok(());
        }
        let n: usize = self.bodies.len();
        let ghost before: Seq<RigidBody> = self.bodies@;
        let ghost g: Vec3 = self.gravity;
        assert(before == old(self)@.bodies);
        assert forall|k: int| 0 <= k < before.len() implies (#[trigger] before[k]).wf() by {
            assert(old(self)@.bodies[k].wf());
        }
        let mut snap: Vec<RigidBody> = Vec::new();
        let mut i: usize = 0;
        while i < n
            invariant
                i <= n,
                n == self.bodies@.len(),
                dt > 0,
                self.bodies@ == before,
                before == old(self).bodies@,
                self.gravity == g,
                g == old(self).gravity,
                self.clock == old(self).clock,
                old(self).clock + dt <= u64::MAX,
                forall|k: int| 0 <= k < before.len() ==> (#[trigger] before[k]).wf(),
                snap@.len() == i,
                forall|k: int| 0 <= k < i ==> advanced(before[k], g, dt as int) == Some(#[trigger] snap@[k]),
                forall|k: int| 0 <= k < i ==> (#[trigger] snap@[k]).wf() && snap@[k].shape == before[k].shape && snap@[k].mass == before[k].mass,
            decreases n - i,
        {
            match advance(&self.bodies[i], &self.gravity, dt) {
                Some(b) => {
                    proof {
                        crate::motion::lemma_advanced_wf(before[i as int], g, dt as int);
                    }
                    snap.push(b);
                },
                None => {
                    assert(!all_advance(before, g, dt as int)) by {
                        assert(advanced(before[i as int], g, dt as int) is None);
                    }
                    return Err(PhysicsError::OutOfRange);
                },
            }
            i += 1;
        }
        assert(all_advance(before, g, dt as int)) by {
            assert forall|k: int| 0 <= k < before.len() implies (#[trigger] advanced(
                before[k],
                g,
                dt as int,
            )) is Some by {
                assert(advanced(before[k], g, dt as int) == Some(snap@[k]));
            }
        }
        assert(snap@ =~= integrated(before, g, dt as int)) by {
            assert forall|k: int| 0 <= k < snap@.len() implies snap@[k] == integrated(
                before,
                g,
                dt as int,
            )[k] by {
                assert(advanced(before[k], g, dt as int) == Some(snap@[k]));
            }
        }
        let mut out: Vec<RigidBody> = Vec::new();
        i = 0;
        while i < n
            invariant
                i <= n,
                n == snap@.len(),
                n == self.bodies@.len(),
                dt > 0,
                self.bodies@ == before,
                before == old(self).bodies@,
                self.gravity == g,
                g == old(self).gravity,
                self.clock == old(self).clock,
                old(self).clock + dt <= u64::MAX,
                all_advance(before, g, dt as int),
                snap@ == integrated(before, g, dt as int),
                forall|k: int| 0 <= k < before.len() ==> (#[trigger] before[k]).wf(),
                forall|k: int| 0 <= k < n ==> (#[trigger] snap@[k]).wf(),
                out@.len() == i,
                forall|k: int| 0 <= k < i ==> resolved(snap@, k, n as int) == Some(#[trigger] out@[k]),
                forall|k: int| 0 <= k < i ==> (#[trigger] out@[k]).wf(),
            decreases n - i,
        {
            let mut run: RigidBody = snap[i];
            let mut j: usize = 0;
            while j < n
                invariant
                    j <= n,
                    i < n,
                    n == snap@.len(),
                    self.bodies@ == before,
                    before == old(self).bodies@,
                    self.gravity == g,
                    g == old(self).gravity,
                    self.clock == old(self).clock,
                    old(self).clock + dt <= u64::MAX,
                    forall|k: int| 0 <= k < before.len() ==> (#[trigger] before[k]).wf(),
                    dt > 0,
                    all_advance(before, g, dt as int),
                    snap@ == integrated(before, g, dt as int),
                    forall|k: int| 0 <= k < n ==> (#[trigger] snap@[k]).wf(),
                    resolved(snap@, i as int, j as int) == Some(run),
                    run.wf(),
                    run.shape == snap@[i as int].shape,
                    run.mass == snap@[i as int].mass,
                decreases n - j,
            {
                if j != i {
                    assert(snap@[i as int].wf());
                    assert(snap@[j as int].wf());
                    match respond(&run, &snap[i], &snap[j]) {
                        Some(b) => {
                            proof {
                                lemma_response_keeps_kind(run, snap@[i as int], snap@[j as int]);
                            }
                            run = b;
                        },
                        None => {
                            proof {
                                assert(resolved(snap@, i as int, j + 1) is None);
                                lemma_resolved_none_stays(snap@, i as int, j + 1, n as int);
                                assert(!all_resolve(snap@));
                            }
                            return Err(PhysicsError::OutOfRange);
                        },
                    }
                }
                j += 1;
            }
            out.push(run);
            i += 1;
        }
        assert(all_resolve(snap@)) by {
            assert forall|k: int| 0 <= k < snap@.len() implies (#[trigger] resolved(
                snap@,
                k,
                snap@.len() as int,
            )) is Some by {
                assert(resolved(snap@, k, n as int) == Some(out@[k]));
            }
        }
        assert(out@ =~= settled(snap@)) by {
            assert forall|k: int| 0 <= k < out@.len() implies out@[k] == settled(snap@)[k] by {
                assert(resolved(snap@, k, n as int) == Some(out@[k]));
            }
        }
        self.bodies = out;
        self.clock = time;
        Ok(())
    }
}

} // verus!

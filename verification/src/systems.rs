//! The systems of this pipeline: units of work that a tick runs on the world.

use vstd::prelude::*;
use crate::context::TickContext;
use crate::world::{SystemError, World, WorldState};

verus! {

/// The state after a system that advances the physics world and then
/// copies positions into transforms, and how it ends. Where the step fails
/// nothing is copied.
pub open spec fn ball_fall(s: WorldState, dt: int) -> (WorldState, Result<(), SystemError>) {
    let (stepped, r) = s.step_physics(dt);
    match r {
        Ok(()) => stepped.sync_transforms(),
        Err(e) => (stepped, Err(e)),
    }
}

/// Advances the physics world by the time since the last tick.
pub struct PhysicsStepSystem;

/// Copies the position of each ball's body into the transform of the ball's entity.
pub struct TransformSyncSystem;

/// Does both in one system: first the step, then the copy.
pub struct BallFallProcessor;

impl PhysicsStepSystem {
    /// Advances the physics world by the time that the context gives.
    pub fn run(&mut self, world: &mut World, ctx: &TickContext) -> (r: Result<(), SystemError>)
        requires
            old(world).wf(),
        ensures
            final(world).wf(),
            (final(world)@, r) == old(world)@.step_physics(ctx.elapsed()),
    {
        world.step_physics(ctx.dt())
    }
}

impl TransformSyncSystem {
    /// Copies positions into transforms. The context is not looked at.
    pub fn run(&mut self, world: &mut World, ctx: &TickContext) -> (r: Result<(), SystemError>)
        requires
            old(world).wf(),
        ensures
            final(world).wf(),
            (final(world)@, r) == old(world)@.sync_transforms(),
            r is Ok ==> final(world)@.in_sync(),
    {
        world.sync_transforms()
    }
}

impl BallFallProcessor {
    /// Advances the physics world by the time that the context gives, then
    /// copies positions into transforms.
    pub fn run(&mut self, world: &mut World, ctx: &TickContext) -> (r: Result<(), SystemError>)
        requires
            old(world).wf(),
        ensures
            final(world).wf(),
            (final(world)@, r) == ball_fall(old(world)@, ctx.elapsed()),
            r is Ok ==> final(world)@.in_sync(),
    {
        match world.step_physics(ctx.dt()) {
            Ok(()) => world.sync_transforms(),
            Err(e) => Err(e),
        }
    }
}

} // verus!

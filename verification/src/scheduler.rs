//! The scheduler: the systems of a tick in the order of their priorities.

use vstd::prelude::*;
use crate::context::TickContext;
use crate::systems::{ball_fall, BallFallProcessor, PhysicsStepSystem, TransformSyncSystem};
use crate::world::{Kind, SystemError, World, WorldState};

verus! {

/// What a registered system does.
#[derive(Clone, Copy, Debug, PartialEq, Eq, Structural)]
pub enum SystemKind {
    /// Advances the physics world.
    PhysicsStep,
    /// Copies positions into transforms.
    TransformSync,
    /// Advances the physics world, then copies positions into transforms.
    BallFall,
    /// Work that the caller does itself, such as drawing: the scheduler
    /// stops at it and names it.
    External,
}

impl SystemKind {
    /// Whether a system of this kind declares that it reads components of
    /// `kind`. Nothing is known of an external system, so it declares all.
    pub open spec fn declares_read(self, kind: Kind) -> bool {
        match self {
            SystemKind::PhysicsStep => kind is PhysicsWorld,
            SystemKind::TransformSync => true,
            SystemKind::BallFall => true,
            SystemKind::External => true,
        }
    }

    /// Whether a system of this kind declares that it writes components of
    /// `kind`. Nothing is known of an external system, so it declares all.
    pub open spec fn declares_write(self, kind: Kind) -> bool {
        match self {
            SystemKind::PhysicsStep => kind is PhysicsWorld,
            SystemKind::TransformSync => kind is LocalTransform,
            SystemKind::BallFall => kind is PhysicsWorld || kind is LocalTransform,
            SystemKind::External => true,
        }
    }

    /// Whether the two systems clash on components of `kind`: one declares
    /// that it writes them, and the other that it reads or writes them.
    pub open spec fn clashes_on(self, other: SystemKind, kind: Kind) -> bool {
        (self.declares_write(kind) && (other.declares_read(kind) || other.declares_write(kind)))
            || (other.declares_write(kind) && self.declares_read(kind))
    }

    /// Whether the two systems clash on components of some kind. Such
    /// systems must run one after the other. Every two of the kinds of
    /// system that this library knows do clash, so this holds of all of
    /// them: a tick never has two systems that could run at the same time.
    pub open spec fn conflicts_with(self, other: SystemKind) -> bool {
        self.clashes_on(other, Kind::LocalTransform) || self.clashes_on(other, Kind::Ball)
            || self.clashes_on(other, Kind::PhysicsWorld)
    }

    /// Whether this system declares that it reads components of `kind`.
    pub fn reads(&self, kind: Kind) -> (b: bool)
        ensures
            b == self.declares_read(kind),
    {
        match self {
            SystemKind::PhysicsStep => match kind {
                Kind::PhysicsWorld => true,
                _ => false,
            },
            _ => true,
        }
    }

    /// Whether this system declares that it writes components of `kind`.
    pub fn writes(&self, kind: Kind) -> (b: bool)
        ensures
            b == self.declares_write(kind),
    {
        match (self, kind) {
            (SystemKind::External, _) => true,
            (SystemKind::PhysicsStep, Kind::PhysicsWorld) => true,
            (SystemKind::TransformSync, Kind::LocalTransform) => true,
            (SystemKind::BallFall, Kind::PhysicsWorld) => true,
            (SystemKind::BallFall, Kind::LocalTransform) => true,
            _ => false,
        }
    }

    /// Whether the two systems clash on components of `kind`: see [`SystemKind::clashes_on`].
    pub fn clash_on(&self, other: &SystemKind, kind: Kind) -> (b: bool)
        ensures
            b == self.clashes_on(*other, kind),
    {
        (self.writes(kind) && (other.reads(kind) || other.writes(kind))) || (other.writes(kind)
            && self.reads(kind))
    }

    /// Whether the two systems may not run at the same time: see [`SystemKind::conflicts_with`].
    pub fn conflicts(&self, other: &SystemKind) -> (b: bool)
        ensures
            b == self.conflicts_with(*other),
    {
        self.clash_on(other, Kind::LocalTransform) || self.clash_on(other, Kind::Ball)
            || self.clash_on(other, Kind::PhysicsWorld)
    }
}

/// The name that `register` gives a system: the number of systems registered before it.
#[derive(Clone, Copy, Debug, PartialEq, Eq, Structural)]
pub struct SystemId {
    pub index: usize,
}

/// A system with its priority.
#[derive(Clone, Copy, Debug, PartialEq, Eq, Structural)]
pub struct Registered {
    pub id: SystemId,
    pub priority: i32,
    pub kind: SystemKind,
}

/// How a call of `tick` ended.
#[derive(Clone, Copy, Debug, PartialEq, Eq, Structural)]
pub enum Progress {
    /// The next system of the tick is external: the caller runs it and calls `tick` again.
    Yield { system: SystemId },
    /// Every system has run once. The next call of `tick` starts the next tick.
    Finished,
}

/// A system failed. The tick ends there: no later system runs.
#[derive(Clone, Copy, Debug, PartialEq, Eq, Structural)]
pub struct TickError {
    pub system: SystemId,
    pub error: SystemError,
}

/// Why the scheduler refused a registration.
#[derive(Clone, Copy, Debug, PartialEq, Eq, Structural)]
pub enum SchedulerError {
    /// A system cannot be registered between the first and the last system of a tick.
    TickInProgress,
}

/// The state after a system of this kind has run, and how it ends. An
/// external system is not run here and changes nothing.
pub open spec fn run_system(kind: SystemKind, s: WorldState, dt: int) -> (
    WorldState,
    Result<(), SystemError>,
) {
    match kind {
        SystemKind::PhysicsStep => s.step_physics(dt),
        SystemKind::TransformSync => s.sync_transforms(),
        SystemKind::BallFall => ball_fall(s, dt),
        SystemKind::External => (s, Ok(())),
    }
}

/// Whether `first` runs before `second`: by lower priority, and among equal
/// priorities by earlier registration.
pub open spec fn runs_before(first: Registered, second: Registered) -> bool {
    first.priority < second.priority || (first.priority == second.priority && first.id.index
        < second.id.index)
}

/// Whether each entry runs before all entries behind it.
pub open spec fn in_order(entries: Seq<Registered>) -> bool {
    forall|a: int, b: int|
        0 <= a < b < entries.len() ==> runs_before(#[trigger] entries[a], #[trigger] entries[b])
}

/// The number of entries whose priority is at most `priority`.
pub open spec fn slot(entries: Seq<Registered>, priority: int) -> int
    decreases entries.len(),
{
    if entries.len() == 0 {
        0
    } else {
        slot(entries.drop_last(), priority) + if entries.last().priority <= priority {
            1int
        } else {
            0int
        }
    }
}

/// What a call of `tick` does when the next system is entry `from`: the
/// state of the world after it, the entry at which the next call goes on,
/// and how the call ends.
///
/// Systems run one after the other in the order of the entries. The call
/// yields at an external system and goes on behind it the next time. It
/// fails at the first system that fails, and the next call then starts
/// again at the first entry. Behind the last entry the tick is finished.
pub open spec fn ticked(entries: Seq<Registered>, from: int, s: WorldState, dt: int) -> (
    WorldState,
    int,
    Result<Progress, TickError>,
)
    decreases entries.len() - from,
{
    if from < 0 || from >= entries.len() {
        (s, 0, Ok(Progress::Finished))
    } else if entries[from].kind is External {
        (s, from + 1, Ok(Progress::Yield { system: entries[from].id }))
    } else {
        let (after, r) = run_system(entries[from].kind, s, dt);
        match r {
            Ok(()) => ticked(entries, from + 1, after, dt),
            Err(error) => (after, 0, Err(TickError { system: entries[from].id, error })),
        }
    }
}

/// In ordered entries, the place behind the entries of priority at most
/// `priority` is the number of those entries.
pub proof fn lemma_slot_is_split(entries: Seq<Registered>, priority: int, at: int)
    requires
        in_order(entries),
        0 <= at <= entries.len(),
        forall|k: int| 0 <= k < at ==> (#[trigger] entries[k]).priority <= priority,
        forall|k: int| at <= k < entries.len() ==> (#[trigger] entries[k]).priority > priority,
    ensures
        slot(entries, priority) == at,
    decreases entries.len(),
{
    if entries.len() > 0 {
        let rest = entries.drop_last();
        assert forall|a: int, b: int| 0 <= a < b < rest.len() implies runs_before(
            #[trigger] rest[a],
            #[trigger] rest[b],
        ) by {
            assert(runs_before(entries[a], entries[b]));
        }
        if at == entries.len() {
            lemma_slot_is_split(rest, priority, at - 1);
        } else {
            lemma_slot_is_split(rest, priority, at);
        }
    }
}

/// What a scheduler holds: the entries in the order in which they run,
/// and the entry at which the current tick goes on.
pub struct SchedulerState {
    pub entries: Seq<Registered>,
    pub cursor: nat,
}

impl SchedulerState {
    /// The entries are in order, each is named by a number below their
    /// count, and the cursor is at an entry or behind the last.
    pub open spec fn wf(self) -> bool {
        &&& in_order(self.entries)
        &&& forall|k: int| 0 <= k < self.entries.len() ==> (#[trigger] self.entries[k]).id.index < self.entries.len()
        &&& self.cursor <= self.entries.len()
    }
}

/// The scheduler. One tick runs every registered system once, by rising priority.
pub struct Scheduler {
    entries: Vec<Registered>,
    cursor: usize,
}

impl View for Scheduler {
    type V = SchedulerState;

    closed spec fn view(&self) -> SchedulerState {
        SchedulerState { entries: self.entries@, cursor: self.cursor as nat }
    }
}

impl Scheduler {
    /// See [`SchedulerState::wf`].
    pub open spec fn wf(&self) -> bool {
        self@.wf()
    }

    /// A scheduler without systems.
    pub fn new() -> (s: Scheduler)
        ensures
            s.wf(),
            s@ == (SchedulerState { entries: Seq::<Registered>::empty(), cursor: 0 }),
    {
        Scheduler { entries: Vec::new(), cursor: 0 }
    }

    /// The number of registered systems.
    pub fn len(&self) -> (n: usize)
        ensures
            n == self@.entries.len(),
    {
        self.entries.len()
    }

    /// Whether a tick has begun and not yet ended.
    pub fn in_progress(&self) -> (b: bool)
        ensures
            b == (self@.cursor != 0),
    {
        self.cursor != 0
    }

    /// Registers a system. It will run behind the systems of lower or equal
    /// priority that are registered so far, and before those of higher
    /// priority. Refused while a tick is in progress.
    pub fn register(&mut self, priority: i32, kind: SystemKind) -> (r: Result<
        SystemId,
        SchedulerError,
    >)
        requires
            old(self).wf(),
        ensures
            final(self).wf(),
            if old(self)@.cursor != 0 {
                r == Err::<SystemId, SchedulerError>(SchedulerError::TickInProgress) && final(self)@
                    == old(self)@
            } else {
                &&& r == Ok::<SystemId, SchedulerError>(
                    SystemId { index: old(self)@.entries.len() as usize },
                )
                &&& final(self)@ == (SchedulerState {
                    entries: old(self)@.entries.insert(
                        slot(old(self)@.entries, priority as int),
                        Registered { id: r->Ok_0, priority, kind },
                    ),
                    cursor: 0,
                })
            },
    {
        if self.cursor != 0 {
            return Err(SchedulerError::TickInProgress);
        }
        let n: usize = self.entries.len();
        let mut at: usize = 0;
        while at < n && self.entries[at].priority <= priority
            invariant
                at <= n,
                n == self.entries@.len(),
                self.entries@ == old(self).entries@,
                forall|k: int| 0 <= k < at ==> (#[trigger] self.entries@[k]).priority <= priority,
            decreases n - at,
        {
            at += 1;
        }
        let ghost before: Seq<Registered> = self.entries@;
        let entry = Registered { id: SystemId { index: n }, priority, kind };
        proof {
            assert forall|k: int| at <= k < before.len() implies (#[trigger] before[k]).priority
                > priority by {
                if k > at {
                    assert(runs_before(before[at as int], before[k]));
                }
            }
            lemma_slot_is_split(before, priority as int, at as int);
        }
        self.entries.insert(at, entry);
        proof {
            let after = self.entries@;
            assert(after == before.insert(at as int, entry));
            assert forall|a: int, b: int| 0 <= a < b < after.len() implies runs_before(
                #[trigger] after[a],
                #[trigger] after[b],
            ) by {
                if a == at {
                    assert(after[b] == before[b - 1]);
                    assert(before[b - 1].priority > priority);
                } else if b == at {
                    assert(after[a] == before[a]);
                    assert(before[a].id.index < n);
                } else {
                    let x = if a < at { a } else { a - 1 };
                    let y = if b < at { b } else { b - 1 };
                    assert(after[a] == before[x]);
                    assert(after[b] == before[y]);
                    assert(runs_before(before[x], before[y]));
                }
            }
            assert forall|k: int| 0 <= k < after.len() implies (#[trigger] after[k]).id.index
                < after.len() by {
                if k < at {
                    assert(after[k] == before[k]);
                } else if k > at {
                    assert(after[k] == before[k - 1]);
                }
            }
        }
        Ok(SystemId { index: n })
    }

    /// The systems in the order in which a tick runs them: by rising
    /// priority, and among equal priorities by registration.
    pub fn order(&self) -> (order: Vec<Registered>)
        requires
            self.wf(),
        ensures
            order@ == self@.entries,
            in_order(order@),
            forall|a: int, b: int|
                0 <= a < b < order@.len() ==> (#[trigger] order@[a]).priority <= (
                #[trigger] order@[b]).priority,
    {
        let mut order: Vec<Registered> = Vec::new();
        let mut i: usize = 0;
        while i < self.entries.len()
            invariant
                i <= self.entries@.len(),
                order@ == self.entries@.take(i as int),
            decreases self.entries@.len() - i,
        {
            order.push(self.entries[i]);
            assert(order@ =~= self.entries@.take(i + 1));
            i += 1;
        }
        assert(order@ =~= self.entries@);
        assert forall|a: int, b: int| 0 <= a < b < order@.len() implies (#[trigger] order@[a]).priority
            <= (#[trigger] order@[b]).priority by {
            assert(runs_before(self@.entries[a], self@.entries[b]));
        }
        order
    }

    /// Runs the systems of the tick from where the last call left it: see [`ticked`].
    pub fn tick(&mut self, world: &mut World, ctx: &TickContext) -> (r: Result<Progress, TickError>)
        requires
            old(self).wf(),
            old(world).wf(),
        ensures
            final(self).wf(),
            final(world).wf(),
            final(self)@.entries == old(self)@.entries,
            (final(world)@, final(self)@.cursor as int, r) == ticked(
                old(self)@.entries,
                old(self)@.cursor as int,
                old(world)@,
                ctx.elapsed(),
            ),
    {
        let n: usize = self.entries.len();
        while self.cursor < n
            invariant
                n == self.entries@.len(),
                self.cursor <= n,
                self.entries@ == old(self).entries@,
                old(self).wf(),
                world.wf(),
                ticked(
                    old(self)@.entries,
                    old(self)@.cursor as int,
                    old(world)@,
                    ctx.elapsed(),
                ) == ticked(self.entries@, self.cursor as int, world@, ctx.elapsed()),
            decreases n - self.cursor,
        {
            let entry: Registered = self.entries[self.cursor];
            let outcome: Result<(), SystemError> = match entry.kind {
                SystemKind::External => {
                    self.cursor = self.cursor + 1;
                    return Ok(Progress::Yield { system: entry.id });
                },
                SystemKind::PhysicsStep => {
                    let mut system = PhysicsStepSystem;
                    system.run(world, ctx)
                },
                SystemKind::TransformSync => {
                    let mut system = TransformSyncSystem;
                    system.run(world, ctx)
                },
                SystemKind::BallFall => {
                    let mut system = BallFallProcessor;
                    system.run(world, ctx)
                },
            };
            match outcome {
                Ok(()) => {
                    self.cursor = self.cursor + 1;
                },
                Err(error) => {
                    self.cursor = 0;
                    return Err(TickError { system: entry.id, error });
                },
            }
        }
        self.cursor = 0;
        Ok(Progress::Finished)
    }
}

} // verus!

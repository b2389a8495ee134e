//! Component storage: one container per kind of component, keyed by entity.

use vstd::prelude::*;

verus! {

/// The identity of an entity. It carries no data: it is a key into the storages.
#[derive(Clone, Copy, Debug, PartialEq, Eq, Structural)]
pub struct Entity {
    pub id: usize,
}

/// The components of one kind, at most one for each entity.
pub struct Storage<T> {
    slots: Vec<Option<T>>,
}

impl<T> Storage<T> {
    /// The component of each entity that has one, by the entity's id.
    pub closed spec fn view(&self) -> Map<usize, T> {
        Map::new(
            |id: usize| id < self.slots@.len() && self.slots@[id as int] is Some,
            |id: usize| self.slots@[id as int]->0,
        )
    }

    /// A storage in which no entity has a component.
    pub fn new() -> (s: Storage<T>)
        ensures
            s@ == Map::<usize, T>::empty(),
    {
        let s = Storage { slots: Vec::new() };
        assert(s@ =~= Map::<usize, T>::empty());
        s
    }

    /// Stores `component` for `entity`, in place of the one that it had, if
    /// any. The storage grows to hold a place for every id up to the entity's.
    pub fn attach(&mut self, entity: Entity, component: T)
        requires
            entity.id < usize::MAX,
        ensures
            final(self)@ == old(self)@.insert(entity.id, component),
    {
        while self.slots.len() <= entity.id
            invariant
                entity.id < usize::MAX,
                self@ == old(self)@,
                self.slots@.len() >= old(self).slots@.len(),
            decreases entity.id + 1 - self.slots@.len(),
        {
            let ghost before = self@;
            self.slots.push(None);
            assert(self@ =~= before);
        }
        let ghost before = self@;
        self.slots[entity.id] = Some(component);
        assert(self@ =~= before.insert(entity.id, component));
    }

    /// Whether `entity` has a component here.
    pub fn has(&self, entity: Entity) -> (b: bool)
        ensures
            b == self@.contains_key(entity.id),
    {
        entity.id < self.slots.len() && self.slots[entity.id].is_some()
    }

    /// The component of `entity`, if it has one.
    pub fn get(&self, entity: Entity) -> (r: Option<&T>)
        ensures
            match r {
                Some(c) => self@.contains_key(entity.id) && *c == self@[entity.id],
                None => !self@.contains_key(entity.id),
            },
    {
        if entity.id < self.slots.len() {
            self.slots[entity.id].as_ref()
        } else {
            None
        }
    }
}

} // verus!

//! The entity store: an arena of entities with stable identifiers.
use vstd::prelude::*;
use crate::physics::entity::Entity;

verus! {

/// The identifier of an entity.  Identifiers are handed out in increasing
/// order and never reused, not even after the store was cleared.
#[derive(Debug, PartialEq, Eq, Hash, Copy, Clone, Structural)]
pub struct EntityId(pub usize);

/// What an entity store holds: its entities in the order they were added,
/// and the identifier of the first of them.
pub struct World {
    pub first_id: nat,
    pub entities: Seq<Entity>,
}

impl World {
    /// The identifier that the next entity will get.
    pub open spec fn next_id(self) -> nat {
        self.first_id + self.entities.len()
    }

    /// Every identifier in use fits in a machine word.
    pub open spec fn wf(self) -> bool {
        self.next_id() <= usize::MAX
    }

    /// Whether `id` names an entity of this world.
    pub open spec fn contains(self, id: EntityId) -> bool {
        self.first_id <= id.0 < self.next_id()
    }

    /// The position in `entities` of the entity named `id`.
    pub open spec fn index_of(self, id: EntityId) -> int {
        id.0 - self.first_id
    }

    /// The identifier of the entity at position `index`.
    pub open spec fn id_at(self, index: int) -> EntityId {
        EntityId((self.first_id + index) as usize)
    }

    /// The entity named `id`.  Meaningful where the world contains `id`.
    pub open spec fn get(self, id: EntityId) -> Entity {
        self.entities[self.index_of(id)]
    }

    /// This world with the entity named `id` replaced by `entity`.
    pub open spec fn put(self, id: EntityId, entity: Entity) -> World {
        World { first_id: self.first_id, entities: self.entities.update(self.index_of(id), entity) }
    }
}

/// Owns the entities of a scene.
pub struct EntityManager {
    entities: Vec<Entity>,
    curr_id: usize,
}

impl View for EntityManager {
    type V = World;

    closed spec fn view(&self) -> World {
        World {
            first_id: (self.curr_id - self.entities@.len()) as nat,
            entities: self.entities@,
        }
    }
}

impl EntityManager {
    #[verifier::type_invariant]
    spec fn inv(self) -> bool {
        self.entities@.len() <= self.curr_id
    }

    /// An empty store whose first identifier will be zero.
    pub fn init() -> (r: Self)
        ensures
            r@ == (World { first_id: 0, entities: Seq::empty() }),
    {
        Self { entities: Vec::new(), curr_id: 0 }
    }

    fn new_entity_id(&mut self) -> (id: EntityId)
        requires
            old(self)@.next_id() < usize::MAX,
        ensures
            id.0 == old(self)@.next_id(),
            final(self).entities == old(self).entities,
            final(self).curr_id == old(self).curr_id + 1,
    {
        proof {
            use_type_invariant(&*self);
        }
        let e_id = EntityId(self.curr_id);
        self.curr_id += 1;
        e_id
    }

    /// Whether every identifier has been handed out, so that `add` can take
    /// no further entity.
    pub fn is_full(&self) -> (r: bool)
        ensures
            r == (self@.next_id() >= usize::MAX),
            self@.wf(),
    {
        proof {
            use_type_invariant(self);
        }
        self.curr_id == usize::MAX
    }

    /// Adds `entity` under the next identifier and returns that identifier.
    pub fn add(&mut self, entity: Entity) -> (id: EntityId)
        requires
            old(self)@.next_id() < usize::MAX,
        ensures
            id.0 == old(self)@.next_id(),
            final(self)@ == (World {
                first_id: old(self)@.first_id,
                entities: old(self)@.entities.push(entity),
            }),
            final(self)@.wf(),
    {
        proof {
            use_type_invariant(&*self);
        }
        let entity_id = self.new_entity_id();
        // The list is taken out while it grows and put back when it is done.
        let mut entities: Vec<Entity> = Vec::new();
        core::mem::swap(&mut self.entities, &mut entities);
        entities.push(entity);
        core::mem::swap(&mut self.entities, &mut entities);
        entity_id
    }

    /// The number of entities.
    pub fn len(&self) -> (r: usize)
        ensures
            r == self@.entities.len(),
            self@.wf(),
    {
        proof {
            use_type_invariant(self);
        }
        self.entities.len()
    }

    /// The identifier of the entity at position `index` in order of addition.
    pub fn id_at(&self, index: usize) -> (id: EntityId)
        requires
            index < self@.entities.len(),
        ensures
            id == self@.id_at(index as int),
            self@.contains(id),
            self@.index_of(id) == index,
    {
        proof {
            use_type_invariant(self);
        }
        EntityId(self.curr_id - self.entities.len() + index)
    }

    /// The entity at position `index` in order of addition.
    pub fn entity_at(&self, index: usize) -> (r: &Entity)
        requires
            index < self@.entities.len(),
        ensures
            *r == self@.entities[index as int],
    {
        &self.entities[index]
    }

    /// The entity named `id`, if the store holds it.
    pub fn get_entity(&self, id: &EntityId) -> (r: Option<&Entity>)
        ensures
            r.is_some() == self@.contains(*id),
            r matches Some(e) ==> *e == self@.get(*id),
    {
        proof {
            use_type_invariant(self);
        }
        let first: usize = self.curr_id - self.entities.len();
        if id.0 >= first && id.0 < self.curr_id {
            Some(&self.entities[id.0 - first])
        } else {
            None
        }
    }

    /// Mutable access to the entity named `id`, if the store holds it.
    pub fn get_entity_mut(&mut self, id: &EntityId) -> (r: Option<&mut Entity>)
        ensures
            r.is_some() == old(self)@.contains(*id),
            r matches Some(e) ==> *e == old(self)@.get(*id) && final(self)@ == old(self)@.put(
                *id,
                *final(e),
            ),
            r.is_none() ==> final(self)@ == old(self)@,
    {
        proof {
            use_type_invariant(&*self);
        }
        let first: usize = self.curr_id - self.entities.len();
        if id.0 >= first && id.0 < self.curr_id {
            Some(&mut self.entities[id.0 - first])
        } else {
            None
        }
    }

    /// Removes every entity.  Identifiers handed out before stay retired.
    pub fn clear(&mut self)
        ensures
            final(self)@ == (World { first_id: old(self)@.next_id(), entities: Seq::empty() }),
            final(self)@.wf(),
    {
        proof {
            use_type_invariant(&*self);
        }
        self.entities = Vec::new();
    }
}

} // verus!

//! The client's component store: entities, their wire names and the encoded
//! component values they own.

use crate::ids::{Entity, NetworkEntity};
use crate::registry::TypeKey;
use std::collections::HashMap;
use vstd::prelude::*;

verus! {

broadcast use vstd::std_specs::hash::group_hash_axioms;

/// One entity as a mathematical value: its wire name, if it has one, and its
/// encoded component values by type.
pub struct EntityView {
    pub network: Option<NetworkEntity>,
    pub components: Map<TypeKey, Seq<u8>>,
}

/// One entity of the store.
struct EntityRecord {
    network: Option<NetworkEntity>,
    components: HashMap<u64, Vec<u8>>,
}

impl View for EntityRecord {
    type V = EntityView;

    closed spec fn view(&self) -> EntityView {
        EntityView {
            network: self.network,
            components: Map::new(
                |t: TypeKey| self.components@.contains_key(t.0),
                |t: TypeKey| self.components@[t.0]@,
            ),
        }
    }
}

/// The entities of one process. The entity at position `i` has the handle
/// with index `i` and generation 0; entities are never removed.
pub struct World {
    entities: Vec<EntityRecord>,
}

/// The handle of the entity at position `i`.
pub open spec fn handle(i: int) -> Entity {
    Entity { generation: 0, index: i as u32 }
}

/// Whether `e` is the handle of one of `n` entities.
pub open spec fn is_handle(e: Entity, n: nat) -> bool {
    e.generation == 0 && e.index < n
}

/// The first position at or after `from` whose entity has the wire name `ne`.
pub open spec fn first_named(world: Seq<EntityView>, ne: NetworkEntity, from: int) -> Option<int>
    decreases world.len() - from,
{
    if from < 0 || from >= world.len() {
        None
    } else if world[from].network == Some(ne) {
        Some(from)
    } else {
        first_named(world, ne, from + 1)
    }
}

/// A position that `first_named` gives lies in the store, at or after `from`,
/// and is the first one there that carries the name.
pub proof fn lemma_first_named(world: Seq<EntityView>, ne: NetworkEntity, from: int)
    requires
        0 <= from,
    ensures
        match first_named(world, ne, from) {
            Some(i) => from <= i < world.len() && world[i].network == Some(ne) && forall|j: int|
                from <= j < i ==> world[j].network != Some(ne),
            None => forall|j: int| from <= j < world.len() ==> world[j].network != Some(ne),
        },
    decreases world.len() - from,
{
    if from < world.len() && world[from].network != Some(ne) {
        lemma_first_named(world, ne, from + 1);
    }
}

impl View for World {
    type V = Seq<EntityView>;

    closed spec fn view(&self) -> Seq<EntityView> {
        self.entities@.map_values(|r: EntityRecord| r@)
    }
}

impl World {
    /// A store has at most 2^32 entities, so that every position fits a handle.
    pub closed spec fn wf(&self) -> bool {
        self.entities@.len() <= 0x1_0000_0000
    }

    /// A store without entities.
    pub fn new() -> (w: World)
        ensures
            w.wf(),
            w@ == Seq::<EntityView>::empty(),
    {
        let w = World { entities: Vec::new() };
        assert(w@ =~= Seq::<EntityView>::empty());
        w
    }

    /// The number of entities.
    pub fn len(&self) -> (n: usize)
        ensures
            n == self@.len(),
    {
        self.entities.len()
    }

    /// Whether `e` is the handle of an entity of this store.
    pub fn contains(&self, e: Entity) -> (b: bool)
        ensures
            b == is_handle(e, self@.len()),
    {
        e.generation == 0 && (e.index as usize) < self.entities.len()
    }

    /// Adds an entity without components and hands out its handle. Nothing is
    /// added when the store already holds 2^32 entities.
    pub fn spawn(&mut self, network: Option<NetworkEntity>) -> (r: Option<Entity>)
        requires
            old(self).wf(),
        ensures
            final(self).wf(),
            old(self)@.len() < 0x1_0000_0000 ==> r == Some(handle(old(self)@.len() as int))
                && final(self)@ == old(self)@.push(
                EntityView { network, components: Map::empty() },
            ),
            old(self)@.len() >= 0x1_0000_0000 ==> r is None && final(self)@ == old(self)@,
    {
        let n = self.entities.len();
        if n > 0xffff_ffff {
            return None;
        }
        let record = EntityRecord { network, components: HashMap::new() };
        assert(record@.components =~= Map::<TypeKey, Seq<u8>>::empty());
        self.entities.push(record);
        assert(self@ =~= old(self)@.push(EntityView { network, components: Map::empty() }));
        Some(Entity { generation: 0, index: n as u32 })
    }

    /// The first entity that carries the wire name `ne`.
    pub fn find(&self, ne: NetworkEntity) -> (r: Option<Entity>)
        requires
            self.wf(),
        ensures
            r == match first_named(self@, ne, 0) {
                Some(i) => Some(handle(i)),
                None => None,
            },
    {
        let mut i: usize = 0;
        while i < self.entities.len()
            invariant
                self.wf(),
                i <= self.entities.len(),
                first_named(self@, ne, 0) == first_named(self@, ne, i as int),
            decreases self.entities.len() - i,
        {
            if let Some(name) = self.entities[i].network {
                if name.0 == ne.0 {
                    return Some(Entity { generation: 0, index: i as u32 });
                }
            }
            i += 1;
        }
        None
    }

    /// Sets the component of type `ty` of entity `e` to `value`, replacing the
    /// value it had. Answers whether `e` is an entity of this store; if it is
    /// not, nothing changes.
    pub fn insert(&mut self, e: Entity, ty: TypeKey, value: Vec<u8>) -> (stored: bool)
        requires
            old(self).wf(),
        ensures
            final(self).wf(),
            stored == is_handle(e, old(self)@.len()),
            stored ==> final(self)@ == old(self)@.update(
                e.index as int,
                EntityView {
                    network: old(self)@[e.index as int].network,
                    components: old(self)@[e.index as int].components.insert(ty, value@),
                },
            ),
            !stored ==> final(self)@ == old(self)@,
    {
        if !self.contains(e) {
            return false;
        }
        let i = e.index as usize;
        let ghost before = self.entities[i as int];
        self.entities[i].components.insert(ty.0, value);
        assert(self.entities[i as int]@.components =~= before@.components.insert(ty, value@));
        assert(self@ =~= old(self)@.update(
            e.index as int,
            EntityView {
                network: old(self)@[e.index as int].network,
                components: old(self)@[e.index as int].components.insert(ty, value@),
            },
        ));
        true
    }

    /// The value of the component of type `ty` of entity `e`.
    pub fn get(&self, e: Entity, ty: TypeKey) -> (r: Option<&Vec<u8>>)
        ensures
            r is Some <==> is_handle(e, self@.len()) && self@[e.index as int].components.contains_key(
                ty,
            ),
            r is Some ==> r.unwrap()@ == self@[e.index as int].components[ty],
    {
        if !self.contains(e) {
            return None;
        }
        self.entities[e.index as usize].components.get(&ty.0)
    }

    /// The wire name of entity `e`.
    pub fn network_entity(&self, e: Entity) -> (r: Option<NetworkEntity>)
        ensures
            r == if is_handle(e, self@.len()) {
                self@[e.index as int].network
            } else {
                None
            },
    {
        if !self.contains(e) {
            return None;
        }
        self.entities[e.index as usize].network
    }
}

} // verus!

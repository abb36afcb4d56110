//! Entity identity and liveness, and the builder that attaches components
//! to one newly allocated entity.

use vstd::prelude::*;

use crate::ecs::access::{Component, ComponentStorage, WriteAccess};
use crate::ecs::world::{registry_wf, World, WorldStorage};

verus! {

/// Mask for the low 52 bits of an entity, which hold its index.
pub const ENTITY_INDEX_MASK: u64 = 0x000f_ffff_ffff_ffff;

/// One more than the largest index an entity can carry.
pub const ENTITY_INDEX_LIMIT: u64 = 0x0010_0000_0000_0000;

/// An entity is a 64-bit value. Bits 0 through 51 hold a dense,
/// monotonically-assigned index unique within a world's lifetime. Bit 63 is
/// the liveness flag (0 = alive, 1 = dead); the remaining bits are reserved.
///
/// Entities are immutable values: killing one produces a new value with the
/// flag set, and two entities are equal exactly when all bits match, so a
/// live and a killed copy of the same index are distinct values.
#[derive(Clone, Copy, PartialEq, Eq, Structural, Hash, Debug)]
pub struct Entity(pub u64);

impl Entity {
    /// The index held in the low 52 bits, as a specification value.
    pub open spec fn index_spec(self) -> u64 {
        self.0 & ENTITY_INDEX_MASK
    }

    /// Whether the liveness flag (bit 63) is set, as a specification value.
    pub open spec fn is_dead_spec(self) -> bool {
        self.0 >> 63 == 1
    }

    /// The value `kill` returns: the same bits with the liveness flag set.
    pub open spec fn kill_spec(self) -> Entity {
        Entity(self.0 | (1u64 << 63))
    }

    /// The entity a plain index converts to: the index bits themselves,
    /// with the liveness flag clear.
    pub open spec fn from_index_spec(i: usize) -> Entity {
        Entity(i as u64)
    }

    /// Wraps raw bits as an entity.
    pub fn new(id: u64) -> (e: Entity)
        ensures
            e.0 == id,
    {
        Entity(id)
    }

    /// The dense index of this entity: the low 52 bits.
    pub fn index(&self) -> (i: usize)
        ensures
            i == (self.index_spec() as usize),
    {
        (self.0 & ENTITY_INDEX_MASK) as usize
    }

    /// Whether this entity has been killed.
    pub fn is_dead(&self) -> (d: bool)
        ensures
            d == self.is_dead_spec(),
    {
        self.0 >> 63 == 1
    }

    /// Returns a copy of this entity with the liveness flag set. Pure: the
    /// entity itself is not changed, and the index bits are kept.
    pub fn kill(&self) -> (e: Entity)
        ensures
            e == self.kill_spec(),
            e.is_dead_spec(),
            e.index_spec() == self.index_spec(),
    {
        proof {
            lemma_kill_sets_flag(*self);
        }
        Entity(self.0 | (1u64 << 63))
    }
}

impl From<usize> for Entity {
    /// Converts a plain index into an alive entity with that index.
    fn from(i: usize) -> (e: Entity) {
        Entity(i as u64)
    }
}

impl vstd::std_specs::convert::FromSpecImpl<usize> for Entity {
    open spec fn obeys_from_spec() -> bool {
        true
    }

    open spec fn from_spec(i: usize) -> Entity {
        Entity::from_index_spec(i)
    }
}

/// An entity made from a plain index below the index limit is alive and
/// carries exactly that index.
pub proof fn lemma_from_index_fresh(i: usize)
    requires
        i < ENTITY_INDEX_LIMIT,
    ensures
        Entity::from_index_spec(i).index_spec() == i,
        !Entity::from_index_spec(i).is_dead_spec(),
{
    let b = i as u64;
    assert(b < 0x0010_0000_0000_0000 ==> (b & 0x000f_ffff_ffff_ffff) == b && (b >> 63) != 1)
        by (bit_vector);
}

/// Killing an entity sets the liveness flag and keeps the index bits.
pub proof fn lemma_kill_sets_flag(e: Entity)
    ensures
        e.kill_spec().is_dead_spec(),
        e.kill_spec().index_spec() == e.index_spec(),
{
    let b = e.0;
    assert((b | (1u64 << 63)) >> 63 == 1) by (bit_vector);
    assert(((b | (1u64 << 63)) & 0x000f_ffff_ffff_ffff) == (b & 0x000f_ffff_ffff_ffff))
        by (bit_vector);
}

/// A transient value that adds one new entity, and its components, to a
/// world. It exists only between a world's `add_entity` and the terminal
/// `build` (or a chained `add_entity`), and it owns the world throughout,
/// so no step can be skipped or reordered and no second builder can be
/// outstanding over the same world.
pub struct EntityBuilder<W> {
    new_entity: Entity,
    world: W,
}

impl<W> EntityBuilder<W> {
    /// The entity being built.
    pub closed spec fn entity(&self) -> Entity {
        self.new_entity
    }

    /// The world being populated.
    pub closed spec fn world(&self) -> W {
        self.world
    }

    /// Wraps a freshly allocated entity and the world it came from;
    /// consumes the world.
    pub fn new(new_entity: Entity, world: W) -> (b: EntityBuilder<W>)
        ensures
            b.entity() == new_entity,
            b.world() == world,
    {
        EntityBuilder { new_entity, world }
    }

    /// Finishes building and returns ownership of the world.
    pub fn build(self) -> (w: W)
        ensures
            w == self.world(),
    {
        self.world
    }
}

impl<W: World> EntityBuilder<W> {
    /// Writes `component` into the world's storage for `T`, keyed by the
    /// entity being built, and returns the updated builder. The registry
    /// is untouched; of the `T` storage, exactly the entries keyed like
    /// the new entity change; every other component type's storage is
    /// left as it was. What iteration of the `T` storage yields afterward
    /// follows per backend: its writer's exact postcondition gives the
    /// new backing state, and the storage module's entry laws relate that
    /// state's iteration to its lookups.
    pub fn with_component<T>(self, component: T) -> (b: EntityBuilder<W>) where
        T: Component,
        W: WorldStorage<T>,

        ensures
            b.entity() == self.entity(),
            b.world().registry() == self.world().registry(),
            b.world().next_index() == self.world().next_index(),
            b.world().component_fetch(self.entity()) == Some(component),
            forall|x: Entity|
                !<<<W as WorldStorage<T>>::Storage as ComponentStorage<T>>::Writer as WriteAccess<
                    T,
                >>::key_match(x, self.entity()) ==> #[trigger] b.world().component_fetch(x)
                    == self.world().component_fetch(x),
            <W as WorldStorage<T>>::only_this_storage_differs(&self.world(), &b.world()),
    {
        let EntityBuilder { new_entity, mut world } = self;
        let ghost w0 = world;
        let storage = <W as WorldStorage<T>>::take_storage(&mut world);
        let ghost w1 = world;
        let mut writer = storage.write();
        writer.set(new_entity, component);
        let storage = <<W as WorldStorage<T>>::Storage as ComponentStorage<T>>::release(writer);
        <W as WorldStorage<T>>::put_storage(&mut world, storage);
        proof {
            <W as WorldStorage<T>>::lemma_only_this_trans(&w0, &w1, &world);
        }
        EntityBuilder { new_entity, world }
    }

    /// Builds this entity and immediately starts the next one: shorthand
    /// for `build().add_entity()`, enabling multi-entity chains. Every
    /// component storage — the components attached so far included — is
    /// left as it was.
    pub fn add_entity(self) -> (b: EntityBuilder<W>)
        requires
            registry_wf(self.world().registry(), self.world().next_index()),
            self.world().next_index() < ENTITY_INDEX_LIMIT,
        ensures
            b.entity() == Entity(self.world().next_index()),
            b.entity().index_spec() == self.world().next_index(),
            !b.entity().is_dead_spec(),
            b.world().registry() == self.world().registry().push(b.entity()),
            b.world().next_index() == self.world().next_index() + 1,
            registry_wf(b.world().registry(), b.world().next_index()),
            W::same_storages(&self.world(), &b.world()),
    {
        self.build().add_entity()
    }
}

} // verus!

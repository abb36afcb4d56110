//! A minimal ready-made world: the entity registry plus one slot-array
//! storage for each built-in demo component. It is both a usable world
//! for small scenes and the reference implementation of the `World` and
//! `WorldStorage` contracts.

use vstd::prelude::*;

use crate::components::Counter;
use crate::debug::DebugName;
use crate::ecs::access::ComponentStorage;
use crate::ecs::entity::{Entity, EntityBuilder};
use crate::ecs::storage::VecStorage;
use crate::ecs::world::{EntityRegistry, World, WorldStorage};

verus! {

/// A world over the built-in demo components, with slot-array storage for
/// each. The mapping from component type to storage is fixed here, at the
/// type: one storage per component type, for the world's whole lifetime.
pub struct BasicWorld {
    registry: EntityRegistry,
    counters: VecStorage<Counter>,
    names: VecStorage<DebugName>,
}

impl BasicWorld {
    /// An empty world: no entities tracked, both storages empty, and
    /// allocation starting at index 0.
    pub fn new() -> (w: BasicWorld)
        ensures
            w.registry() == Seq::<Entity>::empty(),
            w.next_index() == 0,
            forall|e: Entity| #[trigger]
                <BasicWorld as WorldStorage<Counter>>::component_fetch(&w, e) is None,
            forall|e: Entity| #[trigger]
                <BasicWorld as WorldStorage<DebugName>>::component_fetch(&w, e) is None,
    {
        BasicWorld {
            registry: EntityRegistry::new(),
            counters: VecStorage::new(),
            names: VecStorage::new(),
        }
    }
}

impl World for BasicWorld {
    closed spec fn registry(&self) -> Seq<Entity> {
        self.registry.entity_seq()
    }

    closed spec fn next_index(&self) -> u64 {
        self.registry.next_index()
    }

    closed spec fn same_storages(a: &BasicWorld, b: &BasicWorld) -> bool {
        a.counters == b.counters && a.names == b.names
    }

    proof fn lemma_same_storages_refl(a: &BasicWorld) {
    }

    proof fn lemma_same_storages_trans(a: &BasicWorld, b: &BasicWorld, c: &BasicWorld) {
    }

    fn entities(&self) -> (r: &[Entity]) {
        self.registry.entities()
    }

    fn add_entity(self) -> (b: EntityBuilder<Self>) {
        let mut this = self;
        let e = this.registry.add_entity();
        EntityBuilder::new(e, this)
    }

    fn remove_entity(self, entity: Entity) -> (w: Self) {
        let mut this = self;
        this.registry.remove_entity(entity);
        this
    }

    fn remove_dead(self) -> (w: Self) {
        let mut this = self;
        this.registry.remove_dead();
        this
    }
}

impl WorldStorage<Counter> for BasicWorld {
    type Storage = VecStorage<Counter>;

    closed spec fn component_fetch(&self, e: Entity) -> Option<Counter> {
        self.counters.fetch_spec(e)
    }

    closed spec fn component_entries(&self) -> Seq<(Entity, Counter)> {
        self.counters.entries_spec()
    }

    closed spec fn only_this_storage_differs(a: &BasicWorld, b: &BasicWorld) -> bool {
        a.names == b.names
    }

    proof fn lemma_same_storages_frame(a: &BasicWorld, b: &BasicWorld) {
    }

    proof fn lemma_only_this_refl(a: &BasicWorld) {
    }

    proof fn lemma_only_this_trans(a: &BasicWorld, b: &BasicWorld, c: &BasicWorld) {
    }

    fn storage(&self) -> (r: &VecStorage<Counter>) {
        &self.counters
    }

    fn take_storage(&mut self) -> (s: VecStorage<Counter>) {
        let mut s = VecStorage::new();
        core::mem::swap(&mut self.counters, &mut s);
        s
    }

    fn put_storage(&mut self, storage: VecStorage<Counter>) {
        self.counters = storage;
    }
}

impl WorldStorage<DebugName> for BasicWorld {
    type Storage = VecStorage<DebugName>;

    closed spec fn component_fetch(&self, e: Entity) -> Option<DebugName> {
        self.names.fetch_spec(e)
    }

    closed spec fn component_entries(&self) -> Seq<(Entity, DebugName)> {
        self.names.entries_spec()
    }

    closed spec fn only_this_storage_differs(a: &BasicWorld, b: &BasicWorld) -> bool {
        a.counters == b.counters
    }

    proof fn lemma_same_storages_frame(a: &BasicWorld, b: &BasicWorld) {
    }

    proof fn lemma_only_this_refl(a: &BasicWorld) {
    }

    proof fn lemma_only_this_trans(a: &BasicWorld, b: &BasicWorld, c: &BasicWorld) {
    }

    fn storage(&self) -> (r: &VecStorage<DebugName>) {
        &self.names
    }

    fn take_storage(&mut self) -> (s: VecStorage<DebugName>) {
        let mut s = VecStorage::new();
        core::mem::swap(&mut self.names, &mut s);
        s
    }

    fn put_storage(&mut self, storage: VecStorage<DebugName>) {
        self.names = storage;
    }
}

/// A change confined to the counter storage leaves the name storage
/// exactly as it was.
pub proof fn lemma_counter_change_keeps_names(a: &BasicWorld, b: &BasicWorld)
    requires
        <BasicWorld as WorldStorage<Counter>>::only_this_storage_differs(a, b),
    ensures
        forall|e: Entity| #[trigger] <BasicWorld as WorldStorage<DebugName>>::component_fetch(a, e)
            == <BasicWorld as WorldStorage<DebugName>>::component_fetch(b, e),
        <BasicWorld as WorldStorage<DebugName>>::component_entries(a) == <BasicWorld as WorldStorage<
            DebugName,
        >>::component_entries(b),
{
}

/// A change confined to the name storage leaves the counter storage
/// exactly as it was.
pub proof fn lemma_name_change_keeps_counters(a: &BasicWorld, b: &BasicWorld)
    requires
        <BasicWorld as WorldStorage<DebugName>>::only_this_storage_differs(a, b),
    ensures
        forall|e: Entity| #[trigger] <BasicWorld as WorldStorage<Counter>>::component_fetch(a, e)
            == <BasicWorld as WorldStorage<Counter>>::component_fetch(b, e),
        <BasicWorld as WorldStorage<Counter>>::component_entries(a) == <BasicWorld as WorldStorage<
            Counter,
        >>::component_entries(b),
{
}

} // verus!

//! The world: an entity registry plus, per component type, one storage,
//! reached generically through the `WorldStorage` capability.

use vstd::prelude::*;

use crate::ecs::access::{Component, ComponentStorage};
use crate::ecs::entity::{Entity, EntityBuilder, ENTITY_INDEX_LIMIT};

verus! {

/// A world: the entity registry plus one storage per registered component
/// type. `registry` and `next_index` abstract the registry's state; the
/// world hands out entities only through `add_entity`, which allocates the
/// next unused index, so indices are never reused within one world.
pub trait World: Sized {
    /// The tracked entities, alive and dead, in insertion order.
    spec fn registry(&self) -> Seq<Entity>;

    /// The index the next added entity will carry.
    spec fn next_index(&self) -> u64;

    /// Whether every component storage of `a` equals the one of `b`; the
    /// registry and allocation cursor may differ. The registry operations
    /// ensure it: they touch the entity list only, and component data
    /// persists independently of it.
    spec fn same_storages(a: &Self, b: &Self) -> bool;

    /// Storage equality is reflexive.
    proof fn lemma_same_storages_refl(a: &Self)
        ensures
            Self::same_storages(a, a),
    ;

    /// Storage equality is transitive.
    proof fn lemma_same_storages_trans(a: &Self, b: &Self, c: &Self)
        requires
            Self::same_storages(a, b),
            Self::same_storages(b, c),
        ensures
            Self::same_storages(a, c),
    ;

    /// The current registry contents, in insertion order.
    fn entities(&self) -> (r: &[Entity])
        ensures
            r@ == self.registry(),
    ;

    /// Consumes the world and starts building one new entity with the
    /// next unused index; the returned builder owns the world. Every
    /// component storage is left as it was.
    fn add_entity(self) -> (b: EntityBuilder<Self>)
        requires
            registry_wf(self.registry(), self.next_index()),
            self.next_index() < ENTITY_INDEX_LIMIT,
        ensures
            b.entity() == Entity(self.next_index()),
            b.entity().index_spec() == self.next_index(),
            !b.entity().is_dead_spec(),
            b.world().registry() == self.registry().push(b.entity()),
            b.world().next_index() == self.next_index() + 1,
            registry_wf(b.world().registry(), b.world().next_index()),
            Self::same_storages(&self, &b.world()),
    ;

    /// Drops every entity equal to `entity` from the registry only; every
    /// component storage is left as it was.
    fn remove_entity(self, entity: Entity) -> (w: Self)
        ensures
            w.registry() == without_entity(self.registry(), entity),
            w.next_index() == self.next_index(),
            Self::same_storages(&self, &w),
    ;

    /// Keeps only the entities whose liveness flag is clear; every
    /// component storage is left as it was.
    fn remove_dead(self) -> (w: Self)
        ensures
            w.registry() == alive_only(self.registry()),
            w.next_index() == self.next_index(),
            Self::same_storages(&self, &w),
    ;
}

/// The per-(world, component type) capability: given a world, it yields
/// that world's one storage instance for `C`. This is the sole mechanism
/// by which generic system code reaches a concretely-typed storage.
pub trait WorldStorage<C: Component>: World {
    /// The concrete storage this world keeps for `C`.
    type Storage: ComponentStorage<C>;

    /// The component this world's `C` storage holds for `e`, if any.
    spec fn component_fetch(&self, e: Entity) -> Option<C>;

    /// The occupied entries of this world's `C` storage, in its order.
    spec fn component_entries(&self) -> Seq<(Entity, C)>;

    /// Whether, between `a` and `b`, at most this component type's
    /// storage differs: every storage of every other component type is
    /// equal, as are any further world state outside the registry and the
    /// `C` storage. The `C` storage itself and the registry are free to
    /// differ; other clauses pin them where they must not.
    spec fn only_this_storage_differs(a: &Self, b: &Self) -> bool;

    /// Worlds with all storages equal in particular agree on this
    /// component type's storage, and trivially confine any difference to
    /// it.
    proof fn lemma_same_storages_frame(a: &Self, b: &Self)
        requires
            Self::same_storages(a, b),
        ensures
            forall|e: Entity| #[trigger] a.component_fetch(e) == b.component_fetch(e),
            a.component_entries() == b.component_entries(),
            Self::only_this_storage_differs(a, b),
    ;

    /// Confinement to this storage is reflexive.
    proof fn lemma_only_this_refl(a: &Self)
        ensures
            Self::only_this_storage_differs(a, a),
    ;

    /// Confinement to this storage is transitive.
    proof fn lemma_only_this_trans(a: &Self, b: &Self, c: &Self)
        requires
            Self::only_this_storage_differs(a, b),
            Self::only_this_storage_differs(b, c),
        ensures
            Self::only_this_storage_differs(a, c),
    ;

    /// Borrows the storage for `C`, for shared reads.
    fn storage(&self) -> (r: &Self::Storage)
        ensures
            forall|e: Entity| #[trigger] r.fetch_spec(e) == self.component_fetch(e),
            r.entries_spec() == self.component_entries(),
    ;

    /// Moves the storage for `C` out of the world, so an exclusive write
    /// view can be taken; the registry and every other component type's
    /// storage are untouched. Until `put_storage` hands it back, the
    /// world's `C` storage is unspecified.
    fn take_storage(&mut self) -> (s: Self::Storage)
        ensures
            forall|e: Entity| #[trigger] s.fetch_spec(e) == old(self).component_fetch(e),
            s.entries_spec() == old(self).component_entries(),
            final(self).registry() == old(self).registry(),
            final(self).next_index() == old(self).next_index(),
            Self::only_this_storage_differs(old(self), final(self)),
    ;

    /// Hands the storage for `C` back to the world; the registry and
    /// every other component type's storage are untouched.
    fn put_storage(&mut self, storage: Self::Storage)
        ensures
            forall|e: Entity| #[trigger] final(self).component_fetch(e) == storage.fetch_spec(e),
            final(self).component_entries() == storage.entries_spec(),
            final(self).registry() == old(self).registry(),
            final(self).next_index() == old(self).next_index(),
            Self::only_this_storage_differs(old(self), final(self)),
    ;
}

/// Every entity stored in a registry carries an index below the next one
/// to be handed out; this is what makes indices unique for the registry's
/// whole lifetime, also across removals.
pub open spec fn registry_wf(s: Seq<Entity>, next: u64) -> bool {
    forall|k: int| 0 <= k < s.len() ==> (#[trigger] s[k]).index_spec() < next
}

/// A registry grown only by allocation holds exactly the alive entities
/// with indices 0, 1, ... in order.
pub open spec fn registry_sequential(s: Seq<Entity>, next: u64) -> bool {
    &&& next == s.len()
    &&& forall|k: int| 0 <= k < s.len() ==> #[trigger] s[k] == Entity(k as u64)
}

/// A registry with every entity equal to `e` removed; the others keep
/// their relative order.
pub open spec fn without_entity(s: Seq<Entity>, e: Entity) -> Seq<Entity> {
    s.filter(|x: Entity| x != e)
}

/// A registry narrowed to the entities whose liveness flag is clear; they
/// keep their relative order.
pub open spec fn alive_only(s: Seq<Entity>) -> Seq<Entity> {
    s.filter(|x: Entity| !x.is_dead_spec())
}

/// A registry with every copy of `e` replaced by its killed value.
pub open spec fn with_killed(s: Seq<Entity>, e: Entity) -> Seq<Entity> {
    s.map_values(
        |x: Entity|
            if x == e {
                x.kill_spec()
            } else {
                x
            },
    )
}

/// Appending an element commutes with removal: the element stays exactly
/// when it differs from the removed one.
proof fn lemma_without_entity_push(s: Seq<Entity>, p: Entity, e: Entity)
    ensures
        without_entity(s.push(p), e) == if p != e {
            without_entity(s, e).push(p)
        } else {
            without_entity(s, e)
        },
{
    reveal(Seq::filter);
    assert(s.push(p).drop_last() =~= s);
}

/// Appending an element commutes with the liveness sweep: the element
/// stays exactly when it is alive.
proof fn lemma_alive_only_push(s: Seq<Entity>, p: Entity)
    ensures
        alive_only(s.push(p)) == if !p.is_dead_spec() {
            alive_only(s).push(p)
        } else {
            alive_only(s)
        },
{
    reveal(Seq::filter);
    assert(s.push(p).drop_last() =~= s);
}

/// The entity registry: the list of entities a world currently tracks,
/// alive and dead, in insertion order, together with the next index to
/// allocate. Indices are handed out monotonically and never reused within
/// one registry's lifetime.
pub struct EntityRegistry {
    next: u64,
    entities: Vec<Entity>,
}

impl EntityRegistry {
    /// The tracked entities, in insertion order.
    pub closed spec fn entity_seq(&self) -> Seq<Entity> {
        self.entities@
    }

    /// The index the next allocated entity will carry.
    pub closed spec fn next_index(&self) -> u64 {
        self.next
    }

    /// Validity: every tracked index lies below the allocation cursor.
    pub open spec fn wf(&self) -> bool {
        registry_wf(self.entity_seq(), self.next_index())
    }

    /// A fresh registry: nothing tracked, allocation starts at index 0.
    pub fn new() -> (r: EntityRegistry)
        ensures
            r.entity_seq() == Seq::<Entity>::empty(),
            r.next_index() == 0,
            r.wf(),
    {
        EntityRegistry { next: 0, entities: Vec::new() }
    }

    /// The current registry contents: alive and dead entities alike, in
    /// insertion order.
    pub fn entities(&self) -> (r: &[Entity])
        ensures
            r@ == self.entity_seq(),
    {
        self.entities.as_slice()
    }

    /// Allocates the next unused index and tracks the new alive entity.
    pub fn add_entity(&mut self) -> (e: Entity)
        requires
            old(self).wf(),
            old(self).next_index() < ENTITY_INDEX_LIMIT,
        ensures
            e == Entity(old(self).next_index()),
            e.index_spec() == old(self).next_index(),
            !e.is_dead_spec(),
            final(self).entity_seq() == old(self).entity_seq().push(e),
            final(self).next_index() == old(self).next_index() + 1,
            final(self).wf(),
    {
        let e = Entity::new(self.next);
        self.entities.push(e);
        self.next = self.next + 1;
        proof {
            let b = e.0;
            assert(b < 0x0010_0000_0000_0000 ==> (b & 0x000f_ffff_ffff_ffff) == b && (b >> 63)
                != 1) by (bit_vector);
        }
        e
    }

    /// Drops every entity equal to `entity` from the registry — the whole
    /// 64-bit value must match — and keeps all others in order.
    pub fn remove_entity(&mut self, entity: Entity)
        ensures
            final(self).entity_seq() == without_entity(old(self).entity_seq(), entity),
            final(self).next_index() == old(self).next_index(),
            old(self).wf() ==> final(self).wf(),
    {
        let n = self.entities.len();
        let mut kept: Vec<Entity> = Vec::new();
        let mut i: usize = 0;
        while i < n
            invariant
                n == self.entities@.len(),
                i <= n,
                kept@ == without_entity(self.entities@.take(i as int), entity),
            decreases n - i,
        {
            proof {
                assert(self.entities@.take(i + 1) =~= self.entities@.take(i as int).push(
                    self.entities@[i as int],
                ));
                lemma_without_entity_push(
                    self.entities@.take(i as int),
                    self.entities@[i as int],
                    entity,
                );
            }
            let e = self.entities[i];
            if !(e == entity) {
                kept.push(e);
            }
            i += 1;
        }
        proof {
            assert(self.entities@.take(n as int) =~= self.entities@);
            if old(self).wf() {
                lemma_without_entity_wf(old(self).entity_seq(), entity, old(self).next_index());
            }
        }
        self.entities = kept;
    }

    /// Keeps only the entities whose liveness flag is clear, in order: the
    /// sweep that follows a frame's kills.
    pub fn remove_dead(&mut self)
        ensures
            final(self).entity_seq() == alive_only(old(self).entity_seq()),
            final(self).next_index() == old(self).next_index(),
            old(self).wf() ==> final(self).wf(),
    {
        let n = self.entities.len();
        let mut kept: Vec<Entity> = Vec::new();
        let mut i: usize = 0;
        while i < n
            invariant
                n == self.entities@.len(),
                i <= n,
                kept@ == alive_only(self.entities@.take(i as int)),
            decreases n - i,
        {
            proof {
                assert(self.entities@.take(i + 1) =~= self.entities@.take(i as int).push(
                    self.entities@[i as int],
                ));
                lemma_alive_only_push(self.entities@.take(i as int), self.entities@[i as int]);
            }
            let e = self.entities[i];
            if !e.is_dead() {
                kept.push(e);
            }
            i += 1;
        }
        proof {
            assert(self.entities@.take(n as int) =~= self.entities@);
            if old(self).wf() {
                lemma_alive_only_wf(old(self).entity_seq(), old(self).next_index());
            }
        }
        self.entities = kept;
    }

    /// Marks every tracked copy of `entity` dead in place, so a later
    /// liveness sweep drops it. The alive-to-dead transition is terminal:
    /// nothing clears the flag again.
    pub fn kill_entity(&mut self, entity: Entity)
        ensures
            final(self).entity_seq() == with_killed(old(self).entity_seq(), entity),
            final(self).next_index() == old(self).next_index(),
            old(self).wf() ==> final(self).wf(),
    {
        let n = self.entities.len();
        let mut i: usize = 0;
        while i < n
            invariant
                n == self.entities@.len(),
                i <= n,
                self.entities@.len() == old(self).entity_seq().len(),
                self.next == old(self).next_index(),
                forall|k: int|
                    0 <= k < i ==> self.entities@[k] == #[trigger] with_killed(
                        old(self).entity_seq(),
                        entity,
                    )[k],
                forall|k: int|
                    i <= k < n ==> self.entities@[k] == #[trigger] old(self).entity_seq()[k],
            decreases n - i,
        {
            let e = self.entities[i];
            if e == entity {
                self.entities[i] = e.kill();
            }
            i += 1;
        }
        proof {
            assert(self.entities@ =~= with_killed(old(self).entity_seq(), entity));
            assert forall|k: int|
                0 <= k < with_killed(old(self).entity_seq(), entity).len() implies (
            #[trigger] with_killed(old(self).entity_seq(), entity)[k]).index_spec() == old(
                self,
            ).entity_seq()[k].index_spec() by {
                crate::ecs::entity::lemma_kill_sets_flag(old(self).entity_seq()[k]);
            }
        }
    }
}

/// A freshly allocated entity differs from everything the registry
/// already tracks — indices are never reused, also after removals.
pub proof fn lemma_fresh_entity_distinct(s: Seq<Entity>, next: u64)
    requires
        registry_wf(s, next),
        next < ENTITY_INDEX_LIMIT,
    ensures
        forall|k: int|
            0 <= k < s.len() ==> (#[trigger] s[k]).index_spec() != Entity(next).index_spec(),
        forall|k: int| 0 <= k < s.len() ==> #[trigger] s[k] != Entity(next),
{
    assert(next < 0x0010_0000_0000_0000 ==> (next & 0x000f_ffff_ffff_ffff) == next)
        by (bit_vector);
    assert forall|k: int| 0 <= k < s.len() implies #[trigger] s[k] != Entity(next) by {
        assert(s[k].index_spec() != Entity(next).index_spec());
    }
}

/// Allocation keeps a registry sequential: starting from a fresh registry,
/// `n` allocations yield exactly the alive entities with indices `0..n` in
/// order.
pub proof fn lemma_add_preserves_sequential(s: Seq<Entity>, next: u64)
    requires
        registry_sequential(s, next),
        next < ENTITY_INDEX_LIMIT,
    ensures
        registry_sequential(s.push(Entity(next)), (next + 1) as u64),
{
}

/// A sequential registry is well formed.
pub proof fn lemma_sequential_wf(s: Seq<Entity>, next: u64)
    requires
        registry_sequential(s, next),
        next <= ENTITY_INDEX_LIMIT,
    ensures
        registry_wf(s, next),
{
    assert forall|k: int| 0 <= k < s.len() implies (#[trigger] s[k]).index_spec() < next by {
        let b = k as u64;
        assert(b < 0x0010_0000_0000_0000 ==> (b & 0x000f_ffff_ffff_ffff) == b) by (bit_vector);
    }
}

/// Removing an entity that the registry tracks exactly once drops exactly
/// that element and leaves every other — duplicates of other values
/// included — untouched, in order.
pub proof fn lemma_remove_single_match(s: Seq<Entity>, e: Entity, j: int)
    requires
        0 <= j < s.len(),
        s[j] == e,
        forall|k: int| 0 <= k < s.len() && k != j ==> #[trigger] s[k] != e,
    ensures
        without_entity(s, e) == s.remove(j),
    decreases s.len(),
{
    reveal(Seq::filter);
    if j == s.len() - 1 {
        assert(s.remove(j) =~= s.drop_last());
        lemma_without_entity_all_kept(s.drop_last(), e);
    } else {
        let head = s.drop_last();
        let p = s.last();
        lemma_remove_single_match(head, e, j);
        assert(head.push(p) =~= s);
        lemma_without_entity_push(head, p, e);
        assert(head.remove(j).push(p) =~= s.remove(j));
    }
}

/// Removing an entity keeps the registry well formed: what survives was
/// already tracked.
proof fn lemma_without_entity_wf(s: Seq<Entity>, e: Entity, next: u64)
    requires
        registry_wf(s, next),
    ensures
        registry_wf(without_entity(s, e), next),
    decreases s.len(),
{
    reveal(Seq::filter);
    if s.len() > 0 {
        assert(registry_wf(s.drop_last(), next));
        lemma_without_entity_wf(s.drop_last(), e, next);
        assert(s.drop_last().push(s.last()) =~= s);
        lemma_without_entity_push(s.drop_last(), s.last(), e);
    }
}

/// The liveness sweep keeps the registry well formed: what survives was
/// already tracked.
proof fn lemma_alive_only_wf(s: Seq<Entity>, next: u64)
    requires
        registry_wf(s, next),
    ensures
        registry_wf(alive_only(s), next),
    decreases s.len(),
{
    reveal(Seq::filter);
    if s.len() > 0 {
        assert(registry_wf(s.drop_last(), next));
        lemma_alive_only_wf(s.drop_last(), next);
        assert(s.drop_last().push(s.last()) =~= s);
        lemma_alive_only_push(s.drop_last(), s.last());
    }
}

/// A registry tracking no copy of `e` is unchanged by removing `e`.
pub proof fn lemma_without_entity_all_kept(s: Seq<Entity>, e: Entity)
    requires
        forall|k: int| 0 <= k < s.len() ==> #[trigger] s[k] != e,
    ensures
        without_entity(s, e) == s,
    decreases s.len(),
{
    reveal(Seq::filter);
    if s.len() > 0 {
        lemma_without_entity_all_kept(s.drop_last(), e);
        assert(s.drop_last().push(s.last()) =~= s);
        lemma_without_entity_push(s.drop_last(), s.last(), e);
    }
}

/// The liveness sweep keeps exactly the alive entities: everything it
/// yields is alive, and every alive entity of the registry is yielded.
pub proof fn lemma_alive_only_exact(s: Seq<Entity>)
    ensures
        forall|k: int| 0 <= k < alive_only(s).len() ==> !(#[trigger] alive_only(s)[k]).is_dead_spec(),
        forall|k: int|
            0 <= k < s.len() && !(#[trigger] s[k]).is_dead_spec() ==> alive_only(s).contains(s[k]),
        alive_only(s).len() <= s.len(),
{
    let pred = |x: Entity| !x.is_dead_spec();
    s.lemma_filter_len(pred);
    assert forall|k: int|
        0 <= k < alive_only(s).len() implies !(#[trigger] alive_only(s)[k]).is_dead_spec() by {
        s.lemma_filter_pred(pred, k);
    }
    assert forall|k: int|
        0 <= k < s.len() && !(#[trigger] s[k]).is_dead_spec() implies alive_only(s).contains(
        s[k],
    ) by {
        s.lemma_filter_contains(pred, k);
    }
}

} // verus!


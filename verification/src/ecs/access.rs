//! The access-discipline contract every component storage backend
//! implements: shared read views, exclusive write views, and the storage
//! interface that hands them out.

use vstd::prelude::*;

use crate::ecs::entity::Entity;

verus! {

/// A component: any independently ownable data value that can be attached
/// to entities and shared across a storage's access views.
pub trait Component: Sized + Send + Sync {

}

/// Read access to the components of one storage.
///
/// `fetch_spec` is the abstract lookup the view answers, and `entries_spec`
/// the finite ordered sequence of occupied entries its iteration yields.
/// How the two agree is a fact of each backend's model: for the slot
/// array, `lemma_slot_entries_ascending` and `lemma_slot_entries_complete`
/// show that iteration yields exactly the occupied slots with their
/// values; for the paired list, `lemma_pair_entries_fetch` shows the same
/// under pairwise-distinct keys, the invariant its writer keeps.
pub trait ReadAccess<C: Component> {
    /// The component this view associates with `e`, if any.
    spec fn fetch_spec(&self, e: Entity) -> Option<C>;

    /// The occupied entries of this view, in iteration order.
    spec fn entries_spec(&self) -> Seq<(Entity, C)>;

    /// Looks up the component for `e`.
    fn fetch(&self, entity: Entity) -> (r: Option<&C>)
        ensures
            match r {
                Some(v) => self.fetch_spec(entity) == Some(*v),
                None => self.fetch_spec(entity) is None,
            },
    ;

    /// All occupied entries, in this view's iteration order.
    fn iter(&self) -> (r: Vec<(Entity, &C)>)
        ensures
            r@.len() == self.entries_spec().len(),
            forall|j: int|
                0 <= j < r@.len() ==> r@[j].0 == #[trigger] self.entries_spec()[j].0
                    && *r@[j].1 == self.entries_spec()[j].1,
    ;
}

/// Write access to the components of one storage.
///
/// `key_match` is the storage's notion of which entities name the same
/// entry: the slot array keys by index alone, the paired list by the whole
/// 64-bit value.
pub trait WriteAccess<C: Component>: ReadAccess<C> {
    /// Whether `a` and `b` address the same entry of this storage kind.
    spec fn key_match(a: Entity, b: Entity) -> bool;

    /// Sets the component for `entity`, inserting or replacing. The
    /// written value appears among the iterated entries; which entries
    /// those are exactly is a fact of each backend's model.
    fn set(&mut self, entity: Entity, value: C)
        ensures
            final(self).fetch_spec(entity) == Some(value),
            forall|x: Entity|
                !Self::key_match(x, entity) ==> #[trigger] final(self).fetch_spec(x)
                    == old(self).fetch_spec(x),
            exists|j: int|
                0 <= j < final(self).entries_spec().len()
                    && (#[trigger] final(self).entries_spec()[j]).1 == value,
    ;

    /// Removes the component for `entity`; a no-op if it is absent.
    fn unset(&mut self, entity: Entity)
        ensures
            final(self).fetch_spec(entity) is None,
            forall|x: Entity|
                !Self::key_match(x, entity) ==> #[trigger] final(self).fetch_spec(x)
                    == old(self).fetch_spec(x),
    ;

    /// Drops every entry of this storage.
    fn clear(&mut self)
        ensures
            forall|x: Entity| #[trigger] final(self).fetch_spec(x) is None,
            final(self).entries_spec() == Seq::<(Entity, C)>::empty(),
    ;
}

/// Combined read and write access: the capability an exclusive view grants.
pub trait RwAccess<C: Component>: ReadAccess<C> + WriteAccess<C> {

}

/// The interface component storages implement. A storage hands out shared
/// read views through an inherent `read` method (those views borrow the
/// storage, so their type cannot be named here) and one exclusive write
/// view through `write`; the write view takes the storage by value, so
/// while it is outstanding no other view over the same storage instance
/// can exist, and `release` gives the storage back.
pub trait ComponentStorage<C: Component>: Sized {
    /// The exclusive write view; it owns the storage's contents.
    type Writer: RwAccess<C>;

    /// The component this storage associates with `e`, if any.
    spec fn fetch_spec(&self, e: Entity) -> Option<C>;

    /// The occupied entries of this storage, in iteration order.
    spec fn entries_spec(&self) -> Seq<(Entity, C)>;

    /// The exclusive write view; consumes the storage.
    fn write(self) -> (w: Self::Writer)
        ensures
            forall|e: Entity| #[trigger] w.fetch_spec(e) == self.fetch_spec(e),
            w.entries_spec() == self.entries_spec(),
    ;

    /// Turns an exclusive write view back into the storage.
    fn release(writer: Self::Writer) -> (s: Self)
        ensures
            forall|e: Entity| #[trigger] s.fetch_spec(e) == writer.fetch_spec(e),
            s.entries_spec() == writer.entries_spec(),
    ;

    /// Looks up the component for `entity` without taking a view.
    fn fetch(&self, entity: Entity) -> (r: Option<&C>)
        ensures
            match r {
                Some(v) => self.fetch_spec(entity) == Some(*v),
                None => self.fetch_spec(entity) is None,
            },
    ;

    /// All occupied entries in iteration order, without taking a view.
    fn iter(&self) -> (r: Vec<(Entity, &C)>)
        ensures
            r@.len() == self.entries_spec().len(),
            forall|j: int|
                0 <= j < r@.len() ==> r@[j].0 == #[trigger] self.entries_spec()[j].0
                    && *r@[j].1 == self.entries_spec()[j].1,
    ;
}

} // verus!

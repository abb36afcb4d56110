//! Systems: per-frame units of logic that declare, through a data shape,
//! exactly which component storages they touch and in which mode, and the
//! type-erasing adapter that lets heterogeneously-typed systems be driven
//! from one homogeneous loop.

use core::marker::PhantomData;

use vstd::prelude::*;

use crate::ecs::access::{Component, ComponentStorage, ReadAccess, WriteAccess};
use crate::ecs::entity::Entity;
use crate::ecs::world::{World, WorldStorage};
use crate::Delta;

verus! {

/// Read-only access to one component storage, acquired from a world for
/// the duration of a system's update. The view owns the storage while it
/// is outstanding and hands it back when the bundle is restored.
///
/// The view grants no mutating method, but a system that replaces its
/// whole bundle inside `update` changes what `restore` hands back: keep
/// the received bundle intact for the storage to come back unchanged.
pub struct Read<C: Component, S: ComponentStorage<C>> {
    storage: S,
    component: PhantomData<C>,
}

impl<C: Component, S: ComponentStorage<C>> Read<C, S> {
    /// The component the underlying storage holds for `e`, if any.
    pub closed spec fn fetch_spec(&self, e: Entity) -> Option<C> {
        self.storage.fetch_spec(e)
    }

    /// The occupied entries of the underlying storage, in its order.
    pub closed spec fn entries_spec(&self) -> Seq<(Entity, C)> {
        self.storage.entries_spec()
    }

    /// Wraps a storage as a read-only view.
    pub fn new(storage: S) -> (r: Read<C, S>)
        ensures
            forall|e: Entity| #[trigger] r.fetch_spec(e) == storage.fetch_spec(e),
            r.entries_spec() == storage.entries_spec(),
    {
        Read { storage, component: PhantomData }
    }

    /// Looks up the component for `entity`.
    pub fn fetch(&self, entity: Entity) -> (r: Option<&C>)
        ensures
            match r {
                Some(v) => self.fetch_spec(entity) == Some(*v),
                None => self.fetch_spec(entity) is None,
            },
    {
        self.storage.fetch(entity)
    }

    /// All occupied entries, in the storage's iteration order.
    pub fn iter(&self) -> (r: Vec<(Entity, &C)>)
        ensures
            r@.len() == self.entries_spec().len(),
            forall|j: int|
                0 <= j < r@.len() ==> r@[j].0 == #[trigger] self.entries_spec()[j].0 && *r@[j].1
                    == self.entries_spec()[j].1,
    {
        self.storage.iter()
    }
}

/// Read-write access to one component storage, acquired from a world for
/// the duration of a system's update. It holds the storage's exclusive
/// write view, so no other access to that storage can exist beside it.
pub struct Write<C: Component, S: ComponentStorage<C>> {
    writer: S::Writer,
    component: PhantomData<C>,
}

impl<C: Component, S: ComponentStorage<C>> Write<C, S> {
    /// The component the underlying storage holds for `e`, if any.
    pub closed spec fn fetch_spec(&self, e: Entity) -> Option<C> {
        self.writer.fetch_spec(e)
    }

    /// The occupied entries of the underlying storage, in its order.
    pub closed spec fn entries_spec(&self) -> Seq<(Entity, C)> {
        self.writer.entries_spec()
    }

    /// Wraps a storage's exclusive write view.
    pub fn new(writer: S::Writer) -> (w: Write<C, S>)
        ensures
            forall|e: Entity| #[trigger] w.fetch_spec(e) == writer.fetch_spec(e),
            w.entries_spec() == writer.entries_spec(),
    {
        Write { writer, component: PhantomData }
    }

    /// Looks up the component for `entity`.
    pub fn fetch(&self, entity: Entity) -> (r: Option<&C>)
        ensures
            match r {
                Some(v) => self.fetch_spec(entity) == Some(*v),
                None => self.fetch_spec(entity) is None,
            },
    {
        self.writer.fetch(entity)
    }

    /// All occupied entries, in the storage's iteration order.
    pub fn iter(&self) -> (r: Vec<(Entity, &C)>)
        ensures
            r@.len() == self.entries_spec().len(),
            forall|j: int|
                0 <= j < r@.len() ==> r@[j].0 == #[trigger] self.entries_spec()[j].0 && *r@[j].1
                    == self.entries_spec()[j].1,
    {
        self.writer.iter()
    }

    /// Sets the component for `entity`, inserting or replacing.
    pub fn set(&mut self, entity: Entity, value: C)
        ensures
            final(self).fetch_spec(entity) == Some(value),
            forall|x: Entity|
                !<S::Writer as WriteAccess<C>>::key_match(x, entity)
                    ==> #[trigger] final(self).fetch_spec(x) == old(self).fetch_spec(x),
    {
        self.writer.set(entity, value)
    }

    /// Removes the component for `entity`; a no-op if it is absent.
    pub fn unset(&mut self, entity: Entity)
        ensures
            final(self).fetch_spec(entity) is None,
            forall|x: Entity|
                !<S::Writer as WriteAccess<C>>::key_match(x, entity)
                    ==> #[trigger] final(self).fetch_spec(x) == old(self).fetch_spec(x),
    {
        self.writer.unset(entity)
    }

    /// Drops every entry of the storage.
    pub fn clear(&mut self)
        ensures
            forall|x: Entity| #[trigger] final(self).fetch_spec(x) is None,
            final(self).entries_spec() == Seq::<(Entity, C)>::empty(),
    {
        self.writer.clear()
    }
}

/// The data shape a system declares: which storages it needs and in which
/// mode. `get` acquires them from the world — the statically declared
/// lock-acquisition list — and `restore` hands them back; neither touches
/// the entity registry.
///
/// A data shape must not name one component type twice: acquisition moves
/// the named storage out of the world, so the second of two equal-typed
/// elements would acquire the freshly emptied replacement and hand that
/// back at `restore`, losing the data the first element holds.
pub trait SystemData<W: World>: Sized {
    /// Acquires this bundle's storages from the world.
    fn get(world: &mut W) -> (data: Self)
        ensures
            final(world).registry() == old(world).registry(),
            final(world).next_index() == old(world).next_index(),
    ;

    /// Hands the bundle's storages back to the world.
    fn restore(self, world: &mut W)
        ensures
            final(world).registry() == old(world).registry(),
            final(world).next_index() == old(world).next_index(),
    ;
}

impl<W: World> SystemData<W> for () {
    fn get(world: &mut W) -> (data: Self) {
    }

    fn restore(self, world: &mut W) {
    }
}

impl<W, C, S> SystemData<W> for Read<C, S> where
    C: Component,
    S: ComponentStorage<C>,
    W: WorldStorage<C, Storage = S>,
 {
    fn get(world: &mut W) -> (data: Self)
        ensures
            forall|e: Entity| #[trigger] data.fetch_spec(e) == old(world).component_fetch(e),
            data.entries_spec() == old(world).component_entries(),
            <W as WorldStorage<C>>::only_this_storage_differs(old(world), final(world)),
    {
        Read::new(world.take_storage())
    }

    fn restore(self, world: &mut W)
        ensures
            forall|e: Entity| #[trigger] final(world).component_fetch(e) == self.fetch_spec(e),
            final(world).component_entries() == self.entries_spec(),
            <W as WorldStorage<C>>::only_this_storage_differs(old(world), final(world)),
    {
        let Read { storage, .. } = self;
        world.put_storage(storage);
    }
}

impl<W, C, S> SystemData<W> for Write<C, S> where
    C: Component,
    S: ComponentStorage<C>,
    W: WorldStorage<C, Storage = S>,
 {
    fn get(world: &mut W) -> (data: Self)
        ensures
            forall|e: Entity| #[trigger] data.fetch_spec(e) == old(world).component_fetch(e),
            data.entries_spec() == old(world).component_entries(),
            <W as WorldStorage<C>>::only_this_storage_differs(old(world), final(world)),
    {
        Write::new(world.take_storage().write())
    }

    fn restore(self, world: &mut W)
        ensures
            forall|e: Entity| #[trigger] final(world).component_fetch(e) == self.fetch_spec(e),
            final(world).component_entries() == self.entries_spec(),
            <W as WorldStorage<C>>::only_this_storage_differs(old(world), final(world)),
    {
        let Write { writer, .. } = self;
        world.put_storage(S::release(writer));
    }
}

impl<W: World, A: SystemData<W>> SystemData<W> for (A,) {
    fn get(world: &mut W) -> (data: Self) {
        (A::get(world),)
    }

    fn restore(self, world: &mut W) {
        self.0.restore(world);
    }
}

impl<W: World, A: SystemData<W>, B: SystemData<W>> SystemData<W> for (A, B) {
    fn get(world: &mut W) -> (data: Self) {
        let a = A::get(world);
        let b = B::get(world);
        (a, b)
    }

    fn restore(self, world: &mut W) {
        let (a, b) = self;
        a.restore(world);
        b.restore(world);
    }
}

impl<W: World, A: SystemData<W>, B: SystemData<W>, D: SystemData<W>> SystemData<W> for (A, B, D) {
    fn get(world: &mut W) -> (data: Self) {
        let a = A::get(world);
        let b = B::get(world);
        let d = D::get(world);
        (a, b, d)
    }

    fn restore(self, world: &mut W) {
        let (a, b, d) = self;
        a.restore(world);
        b.restore(world);
        d.restore(world);
    }
}

impl<
    W: World,
    A: SystemData<W>,
    B: SystemData<W>,
    D: SystemData<W>,
    E: SystemData<W>,
> SystemData<W> for (A, B, D, E) {
    fn get(world: &mut W) -> (data: Self) {
        let a = A::get(world);
        let b = B::get(world);
        let d = D::get(world);
        let e = E::get(world);
        (a, b, d, e)
    }

    fn restore(self, world: &mut W) {
        let (a, b, d, e) = self;
        a.restore(world);
        b.restore(world);
        d.restore(world);
        e.restore(world);
    }
}

/// A unit of per-frame logic. `Io` is the driver's input snapshot and `Rc`
/// its render context; the core does not interpret either, it only
/// threads them through.
pub trait System<W: World, Io, Rc>: Sized {
    /// The data shape this system fetches each update.
    type Data: SystemData<W>;

    /// A short name for diagnostics.
    fn name(&self) -> &'static str;

    /// The per-invocation entry point: the acquired data bundle, the time
    /// since the last update, the driver's input snapshot, and the render
    /// context.
    fn update(&mut self, data: &mut Self::Data, delta: Delta, io_state: &Io, render_ctx: &mut Rc);

    /// Render-phase hook; systems draw only from what they privately
    /// retained during their last update.
    fn draw(&self, render_ctx: &mut Rc);

    /// Render-phase hook targeting specific, opaque render targets.
    fn draw_to<T>(&self, targets: &[T], render_ctx: &mut Rc);
}

/// The type-erasing dispatch adapter: the one interface the frame driver
/// stores in its ordered system list. It is implemented generically for
/// every system, hiding each system's distinct data shape behind two
/// uniform methods.
pub trait SystemCaller<W: World, Io, Rc> {
    /// Fetches the system's declared data from the world, runs its
    /// update, and hands the data back. The entity registry is untouched:
    /// a dispatched update can change component data only.
    fn dispatch(&mut self, world: &mut W, delta: Delta, io_state: &Io, render_ctx: &mut Rc)
        ensures
            final(world).registry() == old(world).registry(),
            final(world).next_index() == old(world).next_index(),
    ;

    /// Runs the system's render-phase hook.
    fn render(&self, render_ctx: &mut Rc);
}

impl<W: World, Io, Rc, S: System<W, Io, Rc>> SystemCaller<W, Io, Rc> for S {
    fn dispatch(&mut self, world: &mut W, delta: Delta, io_state: &Io, render_ctx: &mut Rc) {
        let mut data = <S::Data as SystemData<W>>::get(world);
        self.update(&mut data, delta, io_state, render_ctx);
        data.restore(world);
    }

    fn render(&self, render_ctx: &mut Rc) {
        self.draw(render_ctx)
    }
}

} // verus!

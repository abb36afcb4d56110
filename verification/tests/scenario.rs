//! End-to-end scenarios: the ready-made world populated through the
//! builder and driven through the dispatch adapter.

use mela::components::Counter;
use mela::debug::DebugName;
use mela::ecs::access::ComponentStorage;
use mela::ecs::basic::BasicWorld;
use mela::ecs::entity::{Entity, EntityBuilder};
use mela::ecs::storage::{VecStorage, VecWriter};
use mela::ecs::system::{Read, SystemCaller, SystemData, Write};
use mela::ecs::world::{World, WorldStorage};
use mela::ecs::System;
use mela::Delta;

struct RenderLog;

struct TickSystem;

impl System<BasicWorld, (), RenderLog> for TickSystem {
    type Data = Write<Counter, VecStorage<Counter>>;

    fn name(&self) -> &'static str {
        "tick"
    }

    fn update(
        &mut self,
        data: &mut Write<Counter, VecStorage<Counter>>,
        _delta: Delta,
        _io_state: &(),
        _render_ctx: &mut RenderLog,
    ) {
        let entities: Vec<Entity> = data.iter().iter().map(|(e, _)| *e).collect();
        for e in entities {
            let v = *data.fetch(e).unwrap();
            data.set(e, Counter(v.0 + 1));
        }
    }

    fn draw(&self, _render_ctx: &mut RenderLog) {}

    fn draw_to<T>(&self, _targets: &[T], _render_ctx: &mut RenderLog) {}
}

struct SumSystem {
    total: u64,
}

impl System<BasicWorld, (), RenderLog> for SumSystem {
    type Data = Read<Counter, VecStorage<Counter>>;

    fn name(&self) -> &'static str {
        "sum"
    }

    fn update(
        &mut self,
        data: &mut Read<Counter, VecStorage<Counter>>,
        _delta: Delta,
        _io_state: &(),
        _render_ctx: &mut RenderLog,
    ) {
        self.total = data.iter().iter().map(|(_, c)| c.0).sum();
    }

    fn draw(&self, _render_ctx: &mut RenderLog) {}

    fn draw_to<T>(&self, _targets: &[T], _render_ctx: &mut RenderLog) {}
}

#[test]
fn counter_system_ticks_five_times() {
    let world = BasicWorld::new()
        .add_entity()
        .with_component(Counter(0))
        .build();
    let e = world.entities()[0];
    assert_eq!(
        WorldStorage::<Counter>::storage(&world).fetch(e),
        Some(&Counter(0))
    );

    let mut world = world;
    let mut system = TickSystem;
    let mut log = RenderLog;
    for _ in 0..5 {
        system.dispatch(&mut world, Delta(16_000_000), &(), &mut log);
    }
    assert_eq!(
        WorldStorage::<Counter>::storage(&world).fetch(e),
        Some(&Counter(5))
    );
}

#[test]
fn read_only_sum_reports_fifteen_without_mutation() {
    let mut world = BasicWorld::new()
        .add_entity()
        .with_component(Counter(0))
        .add_entity()
        .with_component(Counter(5))
        .add_entity()
        .with_component(Counter(10))
        .build();

    let mut summer = SumSystem { total: 0 };
    let mut log = RenderLog;
    summer.dispatch(&mut world, Delta(16_000_000), &(), &mut log);
    assert_eq!(summer.total, 15);

    let entities: Vec<Entity> = world.entities().to_vec();
    let storage = WorldStorage::<Counter>::storage(&world);
    let values: Vec<u64> = entities
        .iter()
        .map(|e| storage.fetch(*e).unwrap().0)
        .collect();
    assert_eq!(values, vec![0, 5, 10]);
}

#[test]
fn builder_chaining_yields_two_entities_with_their_own_components() {
    let world = BasicWorld::new()
        .add_entity()
        .with_component(Counter(7))
        .add_entity()
        .with_component(DebugName("second".to_string()))
        .build();

    let entities = world.entities();
    assert_eq!(entities.len(), 2);
    assert_eq!(entities[0].index(), 0);
    assert_eq!(entities[1].index(), 1);

    let counters = WorldStorage::<Counter>::storage(&world);
    let names = WorldStorage::<DebugName>::storage(&world);
    // the first entity carries only the counter
    assert_eq!(counters.fetch(entities[0]), Some(&Counter(7)));
    assert_eq!(names.fetch(entities[0]), None);
    // the second carries only the name
    assert_eq!(counters.fetch(entities[1]), None);
    assert_eq!(
        names.fetch(entities[1]),
        Some(&DebugName("second".to_string()))
    );
}

#[test]
fn registry_removal_only_touches_the_registry() {
    // removal is deliberately registry-only: component storages keep
    // stale data until a cleanup pass unsets it
    let world = BasicWorld::new()
        .add_entity()
        .with_component(Counter(3))
        .build();
    let e = world.entities()[0];
    let world = world.remove_entity(e);
    assert!(world.entities().is_empty());
    assert_eq!(
        WorldStorage::<Counter>::storage(&world).fetch(e),
        Some(&Counter(3))
    );
    // and the freed index is still not handed out again
    let world = world.add_entity().build();
    assert_eq!(world.entities()[0].index(), 1);
}

#[test]
fn remove_dead_through_the_world_trait() {
    let world = BasicWorld::new()
        .add_entity()
        .add_entity()
        .build();
    let entities = world.entities().to_vec();
    // the registry tracks entities by value; a world that never kills
    // keeps everything
    let world = world.remove_dead();
    assert_eq!(world.entities(), &entities[..]);
}

#[test]
fn builder_new_and_build_round_trip() {
    let world = BasicWorld::new();
    let e = Entity::from(9usize);
    let b = EntityBuilder::new(e, world);
    let world = b.build();
    assert!(world.entities().is_empty());
}

#[test]
fn unit_and_tuple_data_shapes_fetch() {
    let mut world = BasicWorld::new()
        .add_entity()
        .with_component(Counter(1))
        .with_component(DebugName("both".to_string()))
        .build();

    <() as SystemData<BasicWorld>>::get(&mut world).restore(&mut world);
    let data = <(
        Read<Counter, VecStorage<Counter>>,
        Write<DebugName, VecStorage<DebugName>>,
    ) as SystemData<BasicWorld>>::get(&mut world);
    let e = world.entities()[0];
    assert_eq!(data.0.fetch(e), Some(&Counter(1)));
    data.restore(&mut world);
    let _writer: VecWriter<Counter> = WorldStorage::<Counter>::take_storage(&mut world).write();
}

//! Behavior of the two storage backends through their access views.

use mela::components::Counter;
use mela::ecs::access::{ComponentStorage, ReadAccess, WriteAccess};
use mela::ecs::entity::Entity;
use mela::ecs::storage::{DequeStorage, VecStorage};

#[test]
fn slot_round_trip_set_then_fetch() {
    let storage: VecStorage<Counter> = VecStorage::new();
    let e = Entity::from(3usize);
    let mut w = storage.write();
    w.set(e, Counter(42));
    let storage = VecStorage::release(w);
    assert_eq!(storage.read().fetch(e), Some(&Counter(42)));
}

#[test]
fn slot_set_replaces_in_place() {
    let storage: VecStorage<Counter> = VecStorage::new();
    let e = Entity::from(1usize);
    let mut w = storage.write();
    w.set(e, Counter(1));
    w.set(e, Counter(2));
    let storage = VecStorage::release(w);
    assert_eq!(storage.fetch(e), Some(&Counter(2)));
}

#[test]
fn slot_tombstone_unset_then_fetch() {
    let storage: VecStorage<Counter> = VecStorage::new();
    let e = Entity::from(2usize);
    let mut w = storage.write();
    w.set(e, Counter(9));
    w.unset(e);
    // unsetting an index that was never written is a no-op, not a panic
    w.unset(Entity::from(100usize));
    let storage = VecStorage::release(w);
    assert_eq!(storage.read().fetch(e), None);
    assert_eq!(storage.read().fetch(Entity::from(100usize)), None);
}

#[test]
fn slot_fetch_ignores_the_liveness_flag() {
    // the slot array keys by index alone, so a killed copy of the same
    // index reaches the same slot
    let storage: VecStorage<Counter> = VecStorage::new();
    let e = Entity::from(5usize);
    let mut w = storage.write();
    w.set(e, Counter(7));
    let storage = VecStorage::release(w);
    assert_eq!(storage.fetch(e.kill()), Some(&Counter(7)));
}

#[test]
fn slot_iteration_is_ascending_and_omits_empty_slots() {
    let storage: VecStorage<Counter> = VecStorage::new();
    let mut w = storage.write();
    // write out of order, leaving holes at 0, 2, 3 and 5
    w.set(Entity::from(4usize), Counter(40));
    w.set(Entity::from(1usize), Counter(10));
    w.set(Entity::from(6usize), Counter(60));
    let storage = VecStorage::release(w);

    let entries: Vec<(usize, u64)> = storage
        .iter()
        .iter()
        .map(|(e, c)| (e.index(), c.0))
        .collect();
    assert_eq!(entries, vec![(1, 10), (4, 40), (6, 60)]);
    for (e, _) in storage.read().iter() {
        assert!(!e.is_dead());
    }
}

#[test]
fn slot_clear_empties_the_storage() {
    let storage: VecStorage<Counter> = VecStorage::new();
    let mut w = storage.write();
    w.set(Entity::from(0usize), Counter(1));
    w.set(Entity::from(3usize), Counter(2));
    w.clear();
    let storage = VecStorage::release(w);
    assert_eq!(storage.iter().len(), 0);
    assert_eq!(storage.fetch(Entity::from(0usize)), None);
}

#[test]
fn slot_growth_fills_holes_with_empty() {
    let storage: VecStorage<Counter> = VecStorage::new();
    let mut w = storage.write();
    w.set(Entity::from(10usize), Counter(1));
    let storage = VecStorage::release(w);
    for i in 0..10usize {
        assert_eq!(storage.fetch(Entity::from(i)), None);
    }
    assert_eq!(storage.fetch(Entity::from(10usize)), Some(&Counter(1)));
}

#[test]
fn paired_round_trip_set_then_fetch() {
    let storage: DequeStorage<Counter> = DequeStorage::new();
    let e = Entity::from(8usize);
    let mut w = storage.write();
    w.set(e, Counter(5));
    let storage = DequeStorage::release(w);
    assert_eq!(storage.read().fetch(e), Some(&Counter(5)));
}

#[test]
fn paired_set_updates_in_place_keeping_order() {
    let storage: DequeStorage<Counter> = DequeStorage::new();
    let a = Entity::from(1usize);
    let b = Entity::from(2usize);
    let mut w = storage.write();
    w.set(a, Counter(1));
    w.set(b, Counter(2));
    w.set(a, Counter(11));
    let storage = DequeStorage::release(w);

    // iteration follows insertion/update order: the update kept a's place
    let entries: Vec<(usize, u64)> = storage
        .iter()
        .iter()
        .map(|(e, c)| (e.index(), c.0))
        .collect();
    assert_eq!(entries, vec![(1, 11), (2, 2)]);
}

#[test]
fn paired_keys_by_the_whole_entity_value() {
    // the paired list keys by all 64 bits, so a killed copy is another key
    let storage: DequeStorage<Counter> = DequeStorage::new();
    let e = Entity::from(3usize);
    let mut w = storage.write();
    w.set(e, Counter(1));
    w.set(e.kill(), Counter(2));
    let storage = DequeStorage::release(w);
    assert_eq!(storage.fetch(e), Some(&Counter(1)));
    assert_eq!(storage.fetch(e.kill()), Some(&Counter(2)));
}

#[test]
fn paired_tombstone_unset_then_fetch() {
    let storage: DequeStorage<Counter> = DequeStorage::new();
    let a = Entity::from(1usize);
    let b = Entity::from(2usize);
    let mut w = storage.write();
    w.set(a, Counter(1));
    w.set(b, Counter(2));
    w.unset(a);
    // unsetting a key that was never set is a no-op
    w.unset(Entity::from(9usize));
    let storage = DequeStorage::release(w);
    assert_eq!(storage.fetch(a), None);
    assert_eq!(storage.fetch(b), Some(&Counter(2)));
    assert_eq!(storage.fetch(Entity::from(9usize)), None);
}

#[test]
fn paired_clear_empties_the_storage() {
    let storage: DequeStorage<Counter> = DequeStorage::new();
    let mut w = storage.write();
    w.set(Entity::from(0usize), Counter(1));
    w.set(Entity::from(1usize), Counter(2));
    w.clear();
    let storage = DequeStorage::release(w);
    assert_eq!(storage.iter().len(), 0);
    assert_eq!(storage.fetch(Entity::from(0usize)), None);
}

#[test]
fn writer_reads_its_own_writes() {
    let storage: VecStorage<Counter> = VecStorage::new();
    let e = Entity::from(0usize);
    let mut w = storage.write();
    w.set(e, Counter(3));
    assert_eq!(w.fetch(e), Some(&Counter(3)));
    assert_eq!(w.iter().len(), 1);
}

#[test]
fn many_readers_may_coexist() {
    let storage: VecStorage<Counter> = VecStorage::new();
    let e = Entity::from(0usize);
    let mut w = storage.write();
    w.set(e, Counter(1));
    let storage = VecStorage::release(w);
    let r1 = storage.read();
    let r2 = storage.read();
    assert_eq!(r1.fetch(e), r2.fetch(e));
}

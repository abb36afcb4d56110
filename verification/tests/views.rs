//! The access views constructed directly over backing data, the system
//! data wrappers, and the small value types.

use std::collections::VecDeque;

use mela::components::Counter;
use mela::ecs::access::{ComponentStorage, ReadAccess, WriteAccess};
use mela::ecs::entity::Entity;
use mela::ecs::storage::{DequeReader, DequeWriter, VecReader, VecStorage, VecWriter};
use mela::ecs::system::{Read, Write};
use mela::ecs::Event;
use mela::Delta;

#[test]
fn vec_reader_wraps_a_borrowed_slot_array() {
    let data: Vec<Option<Counter>> = vec![Some(Counter(1)), None, Some(Counter(3))];
    let reader = VecReader::new(&data);
    assert_eq!(reader.fetch(Entity::from(0usize)), Some(&Counter(1)));
    assert_eq!(reader.fetch(Entity::from(1usize)), None);
    assert_eq!(reader.fetch(Entity::from(7usize)), None);
    let entries: Vec<(usize, u64)> = reader.iter().iter().map(|(e, c)| (e.index(), c.0)).collect();
    assert_eq!(entries, vec![(0, 1), (2, 3)]);
}

#[test]
fn vec_writer_wraps_an_owned_slot_array() {
    let data: Vec<Option<Counter>> = vec![None, Some(Counter(2))];
    let mut writer = VecWriter::new(data);
    writer.set(Entity::from(0usize), Counter(1));
    assert_eq!(writer.fetch(Entity::from(0usize)), Some(&Counter(1)));
    assert_eq!(writer.fetch(Entity::from(1usize)), Some(&Counter(2)));
}

#[test]
fn deque_reader_wraps_a_borrowed_pair_list() {
    let mut data: VecDeque<(Entity, Counter)> = VecDeque::new();
    data.push_back((Entity::from(5usize), Counter(50)));
    data.push_back((Entity::from(2usize), Counter(20)));
    let reader = DequeReader::new(&data);
    assert_eq!(reader.fetch(Entity::from(5usize)), Some(&Counter(50)));
    assert_eq!(reader.fetch(Entity::from(4usize)), None);
    // iteration follows the list's own order, not index order
    let entries: Vec<usize> = reader.iter().iter().map(|(e, _)| e.index()).collect();
    assert_eq!(entries, vec![5, 2]);
}

#[test]
fn deque_writer_wraps_an_owned_pair_list() {
    let mut data: VecDeque<(Entity, Counter)> = VecDeque::new();
    data.push_back((Entity::from(1usize), Counter(1)));
    let mut writer = DequeWriter::new(data);
    writer.set(Entity::from(1usize), Counter(2));
    writer.set(Entity::from(3usize), Counter(3));
    assert_eq!(writer.fetch(Entity::from(1usize)), Some(&Counter(2)));
    assert_eq!(writer.iter().len(), 2);
}

#[test]
fn read_and_write_wrappers_forward_to_their_storage() {
    let storage: VecStorage<Counter> = VecStorage::new();
    let mut w = storage.write();
    w.set(Entity::from(0usize), Counter(4));
    let storage = VecStorage::release(w);

    let read: Read<Counter, VecStorage<Counter>> = Read::new(storage);
    assert_eq!(read.fetch(Entity::from(0usize)), Some(&Counter(4)));
    assert_eq!(read.iter().len(), 1);

    let storage: VecStorage<Counter> = VecStorage::new();
    let mut write: Write<Counter, VecStorage<Counter>> = Write::new(storage.write());
    write.set(Entity::from(2usize), Counter(9));
    assert_eq!(write.fetch(Entity::from(2usize)), Some(&Counter(9)));
    write.unset(Entity::from(2usize));
    assert_eq!(write.fetch(Entity::from(2usize)), None);
    write.set(Entity::from(0usize), Counter(1));
    write.clear();
    assert_eq!(write.iter().len(), 0);
}

#[test]
fn default_storages_start_empty() {
    let vec_storage: VecStorage<Counter> = Default::default();
    assert_eq!(vec_storage.iter().len(), 0);
    let deque_storage: mela::ecs::storage::DequeStorage<Counter> = Default::default();
    assert_eq!(deque_storage.iter().len(), 0);
}

#[test]
fn raw_bits_with_the_flag_set_read_as_dead() {
    let e = Entity::new(1u64 << 63 | 12);
    assert!(e.is_dead());
    assert_eq!(e.index(), 12);
}

#[test]
fn events_carry_their_entity() {
    let e = Entity::from(4usize);
    let added = Event::EntityAdded(e);
    let removed = Event::EntityRemoved(e);
    assert_eq!(added, Event::EntityAdded(e));
    assert_ne!(added, removed);
    match added {
        Event::EntityAdded(x) => assert_eq!(x, e),
        Event::EntityRemoved(_) => unreachable!(),
    }
}

#[test]
fn delta_reports_its_nanoseconds() {
    let d = Delta(16_666_667);
    assert_eq!(d.nanos(), 16_666_667);
}

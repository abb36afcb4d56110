//! Behavior of the entity registry: allocation, removal, the liveness
//! sweep, and index freshness.

use mela::ecs::entity::Entity;
use mela::ecs::world::EntityRegistry;

#[test]
fn fresh_registry_allocates_indices_in_order() {
    let mut r = EntityRegistry::new();
    for expected in 0..5usize {
        let e = r.add_entity();
        assert_eq!(e.index(), expected);
        assert!(!e.is_dead());
    }
    let indices: Vec<usize> = r.entities().iter().map(|e| e.index()).collect();
    assert_eq!(indices, vec![0, 1, 2, 3, 4]);
}

#[test]
fn indices_are_never_reused_after_removal() {
    let mut r = EntityRegistry::new();
    let e0 = r.add_entity();
    let e1 = r.add_entity();
    let _e2 = r.add_entity();

    r.remove_entity(e1);
    let e3 = r.add_entity();
    // the freed index 1 is not handed out again
    assert_eq!(e3.index(), 3);
    let indices: Vec<usize> = r.entities().iter().map(|e| e.index()).collect();
    assert_eq!(indices, vec![0, 2, 3]);

    r.remove_entity(e0);
    assert_eq!(r.add_entity().index(), 4);
}

#[test]
fn remove_entity_removes_exactly_the_matching_entity() {
    let mut r = EntityRegistry::new();
    let e0 = r.add_entity();
    let e1 = r.add_entity();
    let e2 = r.add_entity();

    // a killed copy of e1 is a different value: nothing is removed
    r.remove_entity(e1.kill());
    assert_eq!(r.entities().len(), 3);

    r.remove_entity(e1);
    assert_eq!(r.entities(), &[e0, e2]);
}

#[test]
fn remove_dead_keeps_exactly_the_alive_subset_in_order() {
    let mut r = EntityRegistry::new();
    let e0 = r.add_entity();
    let e1 = r.add_entity();
    let e2 = r.add_entity();
    let e3 = r.add_entity();

    r.kill_entity(e1);
    r.kill_entity(e3);

    let flags: Vec<bool> = r.entities().iter().map(|e| e.is_dead()).collect();
    assert_eq!(flags, vec![false, true, false, true]);

    r.remove_dead();
    assert_eq!(r.entities(), &[e0, e2]);

    // sweeping again changes nothing
    r.remove_dead();
    assert_eq!(r.entities(), &[e0, e2]);
}

#[test]
fn kill_entity_marks_in_place_and_keeps_the_index() {
    let mut r = EntityRegistry::new();
    let e0 = r.add_entity();
    let e1 = r.add_entity();

    r.kill_entity(e0);
    let stored = r.entities().to_vec();
    assert_eq!(stored.len(), 2);
    assert!(stored[0].is_dead());
    assert_eq!(stored[0].index(), 0);
    assert_eq!(stored[0], e0.kill());
    assert_eq!(stored[1], e1);
}

#[test]
fn empty_registry_sweeps_and_removals_are_no_ops() {
    let mut r = EntityRegistry::new();
    r.remove_dead();
    r.remove_entity(Entity::from(0usize));
    assert!(r.entities().is_empty());
    // allocation still starts at 0
    assert_eq!(r.add_entity().index(), 0);
}

use mela::ecs::entity::Entity;

#[test]
fn fresh_entities_are_alive_and_keep_their_index() {
    for i in [0usize, 1, 5, 4095, 1 << 40] {
        let e = Entity::from(i);
        assert_eq!(e.index(), i);
        assert!(!e.is_dead());
    }
}

#[test]
fn new_wraps_raw_bits() {
    let e = Entity::new(7);
    assert_eq!(e.index(), 7);
    assert!(!e.is_dead());
}

#[test]
fn kill_sets_the_flag_and_keeps_the_index() {
    let e = Entity::from(123usize);
    let dead = e.kill();
    assert!(dead.is_dead());
    assert_eq!(dead.index(), 123);
    // killing is pure: the value it was called on is unchanged
    assert!(!e.is_dead());
    // a live and a killed copy of one index are distinct values
    assert_ne!(e, dead);
    // killing twice changes nothing further
    assert_eq!(dead.kill(), dead);
}

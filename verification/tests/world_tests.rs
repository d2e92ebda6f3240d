use mvu_core::world::World;

#[test]
fn entries_are_found_under_their_keys() {
    let mut world: World<u64> = World::new();
    world.add_with(1, 10);
    world.add_with(2, 20);
    assert!(world.try_state(1).is_some());
    assert!(world.try_state(2).is_some());
    assert!(world.try_state(3).is_none());
}

#[test]
fn at_most_one_instance_per_key() {
    let mut world: World<u64> = World::new();
    world.add_with(1, 10);
    world.add_with(1, 11);
    assert_eq!(world.entries.len(), 1);
    let st = world.state(1);
    assert_eq!(*st.read(&world), 11);
}

#[test]
fn scoped_read_access_hands_the_value_to_the_closure() {
    let mut world: World<u64> = World::new();
    world.add_with(2, 20);
    let doubled = world.get(2, |v: &u64| *v * 2);
    assert_eq!(doubled, 40);
}

#[test]
fn scoped_exclusive_access_stores_what_the_closure_returns() {
    let mut world: World<u64> = World::new();
    world.add_with(2, 20);
    let old = world.get_mut(2, |v: u64| (v + 1, v));
    assert_eq!(old, 20);
    assert_eq!(world.get(2, |v: &u64| *v), 21);
}

#[test]
fn state_handles_share_the_entry() {
    let mut world: World<u64> = World::new();
    world.add_with(5, 50);
    let st = world.state(5);
    let st2 = st.clone();
    st.set(&mut world, 51);
    assert_eq!(*st2.read(&world), 51);
}

#[test]
fn independent_entries_do_not_contend() {
    let mut world: World<u64> = World::new();
    world.add_with(1, 10);
    world.add_with(2, 20);
    let _ = world.get_mut(1, |v: u64| (v + 100, ()));
    assert_eq!(world.get(1, |v: &u64| *v), 110);
    assert_eq!(world.get(2, |v: &u64| *v), 20);
}

#[test]
fn add_registers_the_type_default() {
    let mut world: World<u64> = World::new();
    world.add(3);
    assert_eq!(world.get(3, |v: &u64| *v), 0);
    world.add_with(3, 9);
    world.add(3);
    assert_eq!(world.get(3, |v: &u64| *v), 0);
    assert_eq!(world.entries.len(), 1);
}

#[test]
fn try_get_tolerates_absence() {
    let mut world: World<u64> = World::new();
    world.add_with(1, 10);
    assert_eq!(world.try_get(1, |v: Option<&u64>| v.copied()), Some(10));
    assert_eq!(world.try_get(2, |v: Option<&u64>| v.copied()), None);
}

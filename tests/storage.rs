use mini_gpu::component_storage::ComponentStorage;
use mini_gpu::entity::{Entity, EntityRegistry};

#[test]
fn insert_then_get_returns_value() {
    let mut s: ComponentStorage<u32> = ComponentStorage::new();
    s.insert(Entity(7), 42);
    assert_eq!(s.get(Entity(7)), Some(&42));
    assert_eq!(s.get(Entity(8)), None);
    assert!(s.contains(Entity(7)));
    assert_eq!(s.len(), 1);
}

#[test]
fn insert_existing_replaces_in_place() {
    let mut s: ComponentStorage<&str> = ComponentStorage::new();
    s.insert(Entity(1), "a");
    s.insert(Entity(2), "b");
    s.insert(Entity(1), "c");
    assert_eq!(s.len(), 2);
    assert_eq!(s.entities(), &[Entity(1), Entity(2)]);
    assert_eq!(s.get(Entity(1)), Some(&"c"));
}

#[test]
fn remove_swaps_last_into_hole() {
    let mut s: ComponentStorage<u32> = ComponentStorage::new();
    for i in 0..4usize {
        s.insert(Entity(i), (i as u32) * 10);
    }
    assert_eq!(s.remove(Entity(1)), Some(10));
    assert_eq!(s.entities(), &[Entity(0), Entity(3), Entity(2)]);
    assert_eq!(s.get(Entity(1)), None);
    assert_eq!(s.get(Entity(0)), Some(&0));
    assert_eq!(s.get(Entity(2)), Some(&20));
    assert_eq!(s.get(Entity(3)), Some(&30));
    assert_eq!(s.remove(Entity(1)), None);
    assert_eq!(s.len(), 3);
}

#[test]
fn remove_last_and_only() {
    let mut s: ComponentStorage<u32> = ComponentStorage::new();
    s.insert(Entity(5), 1);
    assert_eq!(s.remove(Entity(5)), Some(1));
    assert!(s.is_empty());
    assert_eq!(s.get(Entity(5)), None);
    s.insert(Entity(5), 2);
    assert_eq!(s.get(Entity(5)), Some(&2));
}

#[test]
fn removal_keeps_other_values() {
    let mut s: ComponentStorage<u32> = ComponentStorage::new();
    for i in 0..10usize {
        s.insert(Entity(i), i as u32 + 100);
    }
    s.remove(Entity(0));
    s.remove(Entity(9));
    s.remove(Entity(4));
    for i in 0..10usize {
        let expected = if i == 0 || i == 9 || i == 4 { None } else { Some(i as u32 + 100) };
        assert_eq!(s.get(Entity(i)).copied(), expected);
    }
}

#[test]
fn get_mut_writes_through() {
    let mut s: ComponentStorage<u32> = ComponentStorage::new();
    s.insert(Entity(3), 1);
    if let Some(v) = s.get_mut(Entity(3)) {
        *v = 9;
    }
    assert!(s.get_mut(Entity(4)).is_none());
    assert_eq!(s.get(Entity(3)), Some(&9));
}

#[test]
fn iter_pairs_in_slot_order() {
    let mut s: ComponentStorage<char> = ComponentStorage::new();
    s.insert(Entity(2), 'x');
    s.insert(Entity(0), 'y');
    let pairs = s.iter();
    assert_eq!(pairs, vec![(Entity(2), &'x'), (Entity(0), &'y')]);
    assert_eq!(s.get_entities(), vec![Entity(2), Entity(0)]);
    assert_eq!(s.entity_at(1), Entity(0));
    assert_eq!(*s.get_at(0), 'x');
}

#[test]
fn registry_never_reuses_ids() {
    let mut r = EntityRegistry::new();
    let a = r.new_entity();
    let b = r.new_entity();
    assert_ne!(a, b);
    assert_eq!(a.id(), 0);
    assert_eq!(b.id(), 1);
    assert_eq!(Entity::new(5).id(), 5);
}

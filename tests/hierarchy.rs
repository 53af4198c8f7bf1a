use mini_gpu::component_storage::{ComponentStorage, ComponentStorageTrait};
use mini_gpu::entity::Entity;
use mini_gpu::hierarchy::{Hierarchy, HierarchySystem, TransformSystem};

fn forest(n: usize) -> ComponentStorage<Hierarchy> {
    let mut nodes = ComponentStorage::new();
    for i in 0..n {
        nodes.insert(Entity(i), Hierarchy::new());
    }
    nodes
}

#[test]
fn add_child_links_both_ways_and_moves_between_parents() {
    let mut nodes = forest(3);
    let h = HierarchySystem::new();
    h.add_child(&mut nodes, Entity(0), Entity(2));
    assert_eq!(nodes.get(Entity(2)).unwrap().get_parent(), Some(Entity(0)));
    assert_eq!(nodes.get(Entity(0)).unwrap().get_children(), &[Entity(2)]);
    h.add_child(&mut nodes, Entity(1), Entity(2));
    assert_eq!(nodes.get(Entity(2)).unwrap().get_parent(), Some(Entity(1)));
    assert!(!nodes.get(Entity(0)).unwrap().has_children());
    assert_eq!(nodes.get(Entity(1)).unwrap().get_children(), &[Entity(2)]);
    h.add_child(&mut nodes, Entity(1), Entity(2));
    assert_eq!(nodes.get(Entity(1)).unwrap().get_children(), &[Entity(2)]);
    h.remove_child(&mut nodes, Entity(1), Entity(2));
    assert!(!nodes.get(Entity(2)).unwrap().has_parent());
    assert!(!nodes.get(Entity(1)).unwrap().has_children());
}

#[test]
fn descendants_depth_first_and_path_to_root() {
    let mut nodes = forest(5);
    let h = HierarchySystem::new();
    h.add_child(&mut nodes, Entity(0), Entity(1));
    h.add_child(&mut nodes, Entity(1), Entity(3));
    h.add_child(&mut nodes, Entity(0), Entity(2));
    h.add_child(&mut nodes, Entity(3), Entity(4));
    assert_eq!(h.get_descendants(&nodes, Entity(0)), vec![Entity(1), Entity(3), Entity(4), Entity(2)]);
    assert_eq!(h.get_descendants(&nodes, Entity(2)), vec![]);
    assert_eq!(h.get_path_to_root(&nodes, Entity(4)), vec![Entity(0), Entity(1), Entity(3), Entity(4)]);
    assert_eq!(h.get_path_to_root(&nodes, Entity(9)), vec![Entity(9)]);
    let order = TransformSystem::new().update_order(&nodes);
    assert_eq!(order, vec![Entity(0), Entity(1), Entity(3), Entity(4), Entity(2)]);
}

#[test]
fn cyclic_hierarchy_terminates() {
    let mut nodes = forest(2);
    let h = HierarchySystem::new();
    h.add_child(&mut nodes, Entity(0), Entity(1));
    h.add_child(&mut nodes, Entity(1), Entity(0));
    assert_eq!(h.get_path_to_root(&nodes, Entity(0)).len(), 3);
    assert_eq!(h.get_descendants(&nodes, Entity(0)), vec![Entity(1), Entity(0)]);
}

#[test]
fn storage_trait_removes_any_type() {
    let mut nodes = forest(2);
    assert!(nodes.remove_entity(Entity(1)));
    assert!(!nodes.remove_entity(Entity(1)));
    assert_eq!(nodes.len(), 1);
}

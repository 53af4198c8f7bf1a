use mini_gpu::components::{Camera, CameraType, Instance, Light, MeshRenderer};
use mini_gpu::entity::Entity;
use mini_gpu::resource_manager::{MaterialId, MeshId};
use mini_gpu::world::World;

type TestWorld = World<u32, &'static str, &'static str, u8, &'static str, &'static str>;

#[test]
fn entities_are_fresh_and_removal_clears_every_storage() {
    let mut w: TestWorld = World::new();
    let a = w.create_entity();
    let b = w.create_entity();
    assert_ne!(a, b);
    w.mesh_renderers.insert(a, MeshRenderer::new(MeshId(1), MaterialId(1)));
    w.instances.insert(a, Instance::single(3));
    w.directional_lights.insert(a, Light::new("sun", 1));
    w.perspective_cameras.insert(b, Camera::new("cam", 0));
    w.remove_entity(a);
    assert_eq!(w.entities, vec![b]);
    assert!(w.mesh_renderers.get(a).is_none());
    assert!(w.instances.get(a).is_none());
    assert!(w.directional_lights.get(a).is_none());
    assert!(w.perspective_cameras.get(b).is_some());
    let c = w.create_entity();
    assert!(c != a && c != b);
}

fn main_count(w: &TestWorld) -> usize {
    let mut n = 0;
    for (_, c) in w.perspective_cameras.iter() {
        if c.camera_data.is_main {
            n += 1;
        }
    }
    for (_, c) in w.orthographic_cameras.iter() {
        if c.camera_data.is_main {
            n += 1;
        }
    }
    n
}

#[test]
fn exactly_one_main_camera_after_each_switch() {
    let mut w: TestWorld = World::new();
    let near_cam = w.create_entity();
    let far_cam = w.create_entity();
    let o1 = w.create_entity();
    w.perspective_cameras.insert(near_cam, Camera::new("near", 0));
    w.perspective_cameras.insert(far_cam, Camera::new("far", 0));
    w.orthographic_cameras.insert(o1, Camera::new("o1", 0));
    assert_eq!(w.get_main_camera_entity(), None);
    w.set_main_camera(far_cam, CameraType::Perspective);
    assert_eq!(main_count(&w), 1);
    assert_eq!(w.get_main_camera_entity(), Some((far_cam, CameraType::Perspective)));
    w.set_main_camera(o1, CameraType::Orthographic);
    assert_eq!(main_count(&w), 1);
    assert_eq!(w.get_main_camera_entity(), Some((o1, CameraType::Orthographic)));
    w.set_main_camera(near_cam, CameraType::Perspective);
    assert_eq!(main_count(&w), 1);
    assert_eq!(w.get_main_camera_entity(), Some((near_cam, CameraType::Perspective)));
    assert!(!w.orthographic_cameras.get(o1).unwrap().camera_data.is_main);
}

#[test]
fn main_camera_on_missing_camera_clears_all() {
    let mut w: TestWorld = World::new();
    let p = w.create_entity();
    w.perspective_cameras.insert(p, Camera::new("p", 0));
    w.set_main_camera(p, CameraType::Perspective);
    w.set_main_camera(p, CameraType::Orthographic);
    assert_eq!(main_count(&w), 0);
    assert_eq!(w.get_main_camera_entity(), None);
}

#[test]
fn perspective_main_camera_wins_over_orthographic() {
    let mut w: TestWorld = World::new();
    let p = w.create_entity();
    let o = w.create_entity();
    let mut pc = Camera::new("p", 0);
    pc.camera_data.is_main = true;
    let mut oc = Camera::new("o", 0);
    oc.camera_data.is_main = true;
    w.orthographic_cameras.insert(o, oc);
    w.perspective_cameras.insert(p, pc);
    assert_eq!(w.get_main_camera_entity(), Some((p, CameraType::Perspective)));
}

#[test]
fn cleanup_empties_storages_and_resources() {
    let mut w: TestWorld = World::new();
    let a = w.create_entity();
    w.mesh_renderers.insert(a, MeshRenderer::new(MeshId(1), MaterialId(1)));
    w.resource_manager_mut().add_material("m", None);
    w.cleanup();
    assert!(w.mesh_renderers.is_empty());
    assert!(w.resource_manager().get_material(MaterialId(1)).is_none());
    assert_eq!(w.entities, vec![a]);
}

#[test]
fn mesh_renderer_builders_and_toggles() {
    let r = MeshRenderer::new(MeshId(2), MaterialId(3)).with_layer(4).with_priority(-1).with_shadows(false, true);
    assert_eq!(r.sort_key(), (4, -1));
    assert!(!r.cast_shadows && r.receive_shadows);
    assert!(r.should_render());
    let mut h = r.with_visibility(false);
    assert!(!h.should_render());
    h.toggle_visibility();
    assert!(h.visible);
    h.set_hidden();
    assert!(!h.visible);
    h.show();
    assert!(h.visible);
    h.set_mesh(MeshId::invalid());
    assert!(!h.is_valid());
    h.set_material(MaterialId(8));
    assert_eq!(h.material_id, MaterialId(8));
    let inv = MeshRenderer::invisible(MeshId(1), MaterialId(1));
    assert!(!inv.visible && !inv.cast_shadows);
    let d = MeshRenderer::default();
    assert!(!d.is_valid());
}

#[test]
fn instance_component_edits() {
    let mut i: Instance<u8> = Instance::new(vec![1, 2, 3]);
    i.mark_clean();
    i.update_instance(5, 9);
    assert!(!i.is_dirty());
    i.update_instance(1, 9);
    assert_eq!(i.data, vec![1, 9, 3]);
    assert!(i.is_dirty());
    i.mark_clean();
    i.remove_instance(0);
    assert_eq!(i.data, vec![9, 3]);
    i.add_instance(4);
    assert_eq!(i.count(), 3);
    i.clear();
    assert!(i.is_empty());
    let d: Instance<u8> = Instance::default();
    assert!(d.is_empty() && d.is_dirty());
    i.mark_dirty();
    assert!(i.is_dirty());
}

#[test]
fn entity_removed_twice_is_harmless() {
    let mut w: TestWorld = World::new();
    let a = w.create_entity();
    w.remove_entity(a);
    w.remove_entity(a);
    assert!(w.entities.is_empty());
    assert_eq!(Entity(0), a);
}

#[test]
fn switching_main_camera_keeps_other_fields() {
    let mut w: TestWorld = World::new();
    let a = w.create_entity();
    let b = w.create_entity();
    w.perspective_cameras.insert(a, Camera::new("a", 3));
    w.orthographic_cameras.insert(b, Camera::new("b", 4));
    w.set_main_camera(b, CameraType::Orthographic);
    let ca = w.perspective_cameras.get(a).unwrap();
    assert_eq!((ca.config, ca.camera_data.bind_index, ca.camera_data.dirty), ("a", 3, true));
    let cb = w.orthographic_cameras.get(b).unwrap();
    assert_eq!((cb.config, cb.camera_data.bind_index, cb.camera_data.is_main), ("b", 4, true));
}

#[test]
fn new_entity_has_no_component() {
    let mut w: TestWorld = World::new();
    let a = w.create_entity();
    w.mesh_renderers.insert(a, MeshRenderer::new(MeshId(1), MaterialId(1)));
    let b = w.create_entity();
    assert!(b.id() > a.id());
    assert!(!w.mesh_renderers.contains(b));
}

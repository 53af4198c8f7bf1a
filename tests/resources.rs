use std::cell::Cell;

use mini_gpu::entity::Entity;
use mini_gpu::layout::{AttributeFormat, StepMode, VertexFormat};
use mini_gpu::mesh::Mesh;
use mini_gpu::resource_manager::{
    BufferCreateInfo, BufferError, BufferId, BufferType, BufferUsage, MeshId, ResourceManager,
};

type Manager = ResourceManager<u32, &'static str, String>;

#[test]
fn created_buffer_is_found_and_removed() {
    let mut rm: Manager = ResourceManager::new();
    let data = [1u8, 2, 3, 4];
    let id = rm.create_buffer(BufferCreateInfo::new(BufferType::Camera, BufferUsage::Uniform, &data), 77);
    assert_eq!(id, BufferId(1));
    assert!(id.is_valid());
    let b = rm.get_buffer(id).unwrap();
    assert_eq!(b.size, 4);
    assert_eq!(b.buffer, 77);
    assert_eq!(rm.get_buffers_by_type(BufferType::Camera).len(), 1);
    let removed = rm.remove_buffer(id).unwrap();
    assert_eq!(removed.buffer, 77);
    assert!(rm.get_buffer(id).is_none());
    assert!(rm.get_buffers_by_type(BufferType::Camera).is_empty());
    assert!(rm.remove_buffer(id).is_none());
}

#[test]
fn buffers_by_type_in_creation_order() {
    let mut rm: Manager = ResourceManager::new();
    let d = [0u8; 8];
    rm.create_buffer(BufferCreateInfo::new(BufferType::Light, BufferUsage::Uniform, &d), 1);
    rm.create_buffer(BufferCreateInfo::new(BufferType::Custom(3), BufferUsage::Storage, &d), 2);
    rm.create_buffer(BufferCreateInfo::new(BufferType::Light, BufferUsage::Uniform, &d), 3);
    let lights: Vec<u32> = rm.get_buffers_by_type(BufferType::Light).iter().map(|b| b.buffer).collect();
    assert_eq!(lights, vec![1, 3]);
    assert_eq!(rm.buffer_count_by_type(BufferType::Custom(3)), 1);
    assert_eq!(rm.buffer_count_by_type(BufferType::Custom(4)), 0);
    assert_eq!(rm.buffer_count(), 3);
}

#[test]
fn labelled_buffer_found_by_name_until_removed() {
    let mut rm: Manager = ResourceManager::new();
    let d = [0u8; 16];
    let info = BufferCreateInfo::new(BufferType::Transform, BufferUsage::Uniform, &d)
        .with_label("model".to_string())
        .with_bind_index(3);
    let id = rm.create_buffer(info, 5);
    let b = rm.get_buffer_by_name("model").unwrap();
    assert_eq!(b.bind_index, Some(3));
    assert_eq!(b.label.as_deref(), Some("model"));
    rm.remove_buffer(id);
    assert!(rm.get_buffer_by_name("model").is_none());
}

#[test]
fn update_buffer_checks_bounds() {
    let mut rm: Manager = ResourceManager::new();
    let d = [0u8; 8];
    let id = rm.create_buffer(BufferCreateInfo::new(BufferType::Material, BufferUsage::Uniform, &d), 9);
    let written = Cell::new(0u32);
    assert_eq!(rm.update_buffer(id, &[1, 2, 3, 4], 4, |b: &u32| written.set(*b)), Ok(()));
    assert_eq!(written.get(), 9);
    written.set(0);
    assert_eq!(
        rm.update_buffer(id, &[1, 2, 3, 4], 5, |b: &u32| written.set(*b)),
        Err(BufferError::OutOfBounds)
    );
    assert_eq!(
        rm.update_buffer(id, &[0u8; 9], 0, |b: &u32| written.set(*b)),
        Err(BufferError::OutOfBounds)
    );
    assert_eq!(
        rm.update_buffer(BufferId(42), &[1], 0, |b: &u32| written.set(*b)),
        Err(BufferError::NotFound)
    );
    assert_eq!(written.get(), 0);
    assert_eq!(rm.update_buffer(id, &[0u8; 8], 0, |_b: &u32| {}), Ok(()));
}

#[test]
fn instance_sync_reuses_same_size_buffer() {
    let mut rm: Manager = ResourceManager::new();
    let e = Entity(4);
    let data = vec![7u8; 144];
    let allocations = Cell::new(0u32);
    let writes = Cell::new(0u32);
    let first = rm.sync_instance_buffer(e, &data, || { allocations.set(allocations.get() + 1); 100 }, |_b: &u32| writes.set(writes.get() + 1));
    let second = rm.sync_instance_buffer(e, &data, || { allocations.set(allocations.get() + 1); 200 }, |_b: &u32| writes.set(writes.get() + 1));
    assert!(first.is_some());
    assert_eq!(first, second);
    assert_eq!(allocations.get(), 1);
    assert_eq!(writes.get(), 1);
    assert_eq!(rm.get_instance_buffer_id(e), first);
    let b = rm.get_buffer(first.unwrap()).unwrap();
    assert_eq!(b.buffer_type, BufferType::Instance);
    assert_eq!(b.usage, BufferUsage::Vertex);
    assert_eq!(b.size, 144);
}

#[test]
fn instance_sync_reallocates_on_resize_and_removes_on_empty() {
    let mut rm: Manager = ResourceManager::new();
    let e = Entity(1);
    let one = rm.sync_instance_buffer(e, &[1u8; 144], || 1, |_b: &u32| {}).unwrap();
    let two = rm.sync_instance_buffer(e, &[1u8; 288], || 2, |_b: &u32| {}).unwrap();
    assert_ne!(one, two);
    assert!(rm.get_buffer(one).is_none());
    assert_eq!(rm.get_buffer(two).unwrap().buffer, 2);
    assert_eq!(rm.buffer_count(), 1);
    let gone = rm.sync_instance_buffer(e, &[], || 3, |_b: &u32| {});
    assert_eq!(gone, Some(two));
    assert!(rm.get_buffer(two).is_none());
    assert_eq!(rm.get_instance_buffer_id(e), None);
    assert_eq!(rm.sync_instance_buffer(e, &[], || 4, |_b: &u32| {}), None);
}

#[test]
fn instance_sync_recreates_missing_buffer() {
    let mut rm: Manager = ResourceManager::new();
    let e = Entity(2);
    let id = rm.sync_instance_buffer(e, &[0u8; 16], || 1, |_b: &u32| {}).unwrap();
    rm.remove_buffer(id);
    let again = rm.sync_instance_buffer(e, &[0u8; 16], || 2, |_b: &u32| {}).unwrap();
    assert_ne!(id, again);
    assert_eq!(rm.get_buffer(again).unwrap().buffer, 2);
    assert_eq!(rm.remove_instance_buffer(e), Some(again));
    assert_eq!(rm.remove_instance_buffer(e), None);
}

#[test]
fn meshes_and_materials_by_id_and_name() {
    let mut rm: Manager = ResourceManager::new();
    let m = rm.add_mesh(Mesh::new("tri", 3, VertexFormat::PositionOnly), Some("tri".to_string()));
    let n = rm.add_mesh(Mesh::new("quad", 6, VertexFormat::PositionTexture), None);
    assert_eq!(m, MeshId(1));
    assert_eq!(n, MeshId(2));
    assert_eq!(rm.get_mesh(m).unwrap().num_indices, 3);
    assert_eq!(rm.get_mesh_by_name("tri").unwrap().gpu, "tri");
    assert!(rm.get_mesh_by_name("quad").is_none());
    rm.get_mesh_mut(n).unwrap().num_indices = 12;
    assert_eq!(rm.get_mesh(n).unwrap().num_indices, 12);
    let mat = rm.add_material("basic".to_string(), Some("basic".to_string()));
    assert_eq!(rm.get_material(mat).unwrap(), "basic");
    assert_eq!(rm.get_material_by_name("basic").unwrap(), "basic");
    rm.get_material_mut(mat).unwrap().push('!');
    assert_eq!(rm.get_material(mat).unwrap(), "basic!");
    assert!(rm.get_material(mini_gpu::resource_manager::MaterialId(9)).is_none());
    assert!(!MeshId::invalid().is_valid());
}

#[test]
fn standard_instance_layout_registered_by_name() {
    let mut rm: Manager = ResourceManager::new();
    assert!(rm.get_buffer_layout_by_name("instance").is_none());
    let id = rm.init_standard_layouts();
    let l = rm.get_buffer_layout_by_name("instance").unwrap();
    assert_eq!(l.step_mode, StepMode::Instance);
    assert_eq!(l.layout.array_stride, 144);
    assert_eq!(l.layout.attributes.len(), 9);
    assert_eq!(l.layout.attributes[1].offset, 16);
    assert_eq!(l.layout.attributes[1].shader_location, 6);
    assert_eq!(l.layout.attributes[7].shader_location, 12);
    assert_eq!(l.layout.attributes[8].format, AttributeFormat::Uint32);
    assert_eq!(l.layout.attributes[8].offset, 128);
    assert_eq!(l.layout.attributes[8].shader_location, 13);
    assert!(rm.get_buffer_layout(id).is_some());
}

#[test]
fn cleanup_drops_everything() {
    let mut rm: Manager = ResourceManager::new();
    let d = [0u8; 4];
    rm.create_buffer(BufferCreateInfo::new(BufferType::Camera, BufferUsage::Uniform, &d), 1);
    rm.add_mesh(Mesh::new("m", 3, VertexFormat::PositionOnly), None);
    rm.cleanup();
    assert_eq!(rm.buffer_count(), 0);
    assert!(rm.get_mesh(MeshId(1)).is_none());
    let again = rm.add_mesh(Mesh::new("m", 3, VertexFormat::PositionOnly), None);
    assert_eq!(again, MeshId(1));
}

#[test]
fn total_memory_and_counts_follow_removal() {
    let mut rm: Manager = ResourceManager::new();
    let a = rm.create_buffer(BufferCreateInfo::new(BufferType::Light, BufferUsage::Uniform, &[0u8; 16]), 1);
    rm.create_buffer(BufferCreateInfo::new(BufferType::Light, BufferUsage::Uniform, &[0u8; 32]), 2);
    rm.create_buffer(BufferCreateInfo::new(BufferType::Camera, BufferUsage::Uniform, &[0u8; 64]), 3);
    assert_eq!(rm.total_buffer_memory(), 112);
    rm.remove_buffer(a);
    assert_eq!(rm.total_buffer_memory(), 96);
    assert_eq!(rm.buffer_count(), 2);
    assert_eq!(rm.buffer_count_by_type(BufferType::Light), 1);
    assert_eq!(rm.buffer_count_by_type(BufferType::Camera), 1);
}

#[test]
fn instance_sync_keeps_buffer_count() {
    let mut rm: Manager = ResourceManager::new();
    let e = Entity(3);
    rm.sync_instance_buffer(e, &[0u8; 144], || 1, |_b: &u32| {});
    assert_eq!(rm.buffer_count(), 1);
    rm.sync_instance_buffer(e, &[0u8; 144], || 2, |_b: &u32| {});
    assert_eq!(rm.buffer_count(), 1);
    rm.sync_instance_buffer(e, &[0u8; 288], || 3, |_b: &u32| {});
    assert_eq!(rm.buffer_count(), 1);
    assert_eq!(rm.total_buffer_memory(), 288);
}

use std::cell::Cell;

use mini_gpu::components::{Camera, CameraType, Instance, Light, MeshRenderer};
use mini_gpu::layout::VertexFormat;
use mini_gpu::mesh::Mesh;
use mini_gpu::mesh_render::{
    collect_light_bindings, get_all_lights, plan_environment, EnvBindingKind, EnvLayoutEntry, MeshRender,
    PipelineKey, ENV_BIND_GROUP_INDEX, LIGHT_BINDING_INDEX,
};
use mini_gpu::resource_manager::MaterialId;
use mini_gpu::world::World;

type TestWorld = World<u32, &'static str, &'static str, u8, &'static str, u32>;

#[test]
fn one_entity_one_draw_then_shared_pipeline() {
    let mut w: TestWorld = World::new();
    let mesh = w.resource_manager.add_mesh(Mesh::new("M", 3, VertexFormat::PositionOnly), None);
    let mat = w.resource_manager.add_material("X", None);
    let a = w.create_entity();
    w.mesh_renderers.insert(a, MeshRenderer::new(mesh, mat));
    let env = plan_environment(&w);
    let mut render: MeshRender<String> = MeshRender::new();
    let builds = Cell::new(0u32);
    let build = |k: &PipelineKey| {
        builds.set(builds.get() + 1);
        format!("pipeline for material {}", k.material_id.0)
    };
    let draws = render.prepare_frame(&w, &env, &build);
    assert_eq!(draws.len(), 1);
    assert_eq!(draws[0].entity, a);
    assert_eq!(draws[0].num_indices, 3);
    assert_eq!(draws[0].instance_count, 1);
    assert_eq!(draws[0].instance_buffer, None);
    assert_eq!(render.pipeline_count(), 1);

    let b = w.create_entity();
    w.mesh_renderers.insert(b, MeshRenderer::new(mesh, mat));
    let draws = render.prepare_frame(&w, &env, &build);
    assert_eq!(draws.len(), 2);
    assert_eq!(render.pipeline_count(), 1);
    assert_eq!(builds.get(), 1);
    assert_eq!(draws[0].pipeline, draws[1].pipeline);
    assert_eq!(render.get_pipeline(draws[1].pipeline), "pipeline for material 1");
}

#[test]
fn entities_without_mesh_or_material_are_skipped() {
    let mut w: TestWorld = World::new();
    let mesh = w.resource_manager.add_mesh(Mesh::new("M", 6, VertexFormat::PositionNormal), None);
    let mat = w.resource_manager.add_material("X", None);
    let a = w.create_entity();
    let b = w.create_entity();
    let c = w.create_entity();
    w.mesh_renderers.insert(a, MeshRenderer::new(mesh, MaterialId(99)));
    w.mesh_renderers.insert(b, MeshRenderer::new(mesh, mat));
    w.mesh_renderers.insert(c, MeshRenderer::default());
    let env = plan_environment(&w);
    let mut render: MeshRender<u32> = MeshRender::new();
    let draws = render.prepare_frame(&w, &env, &|_k: &PipelineKey| 5u32);
    assert_eq!(draws.len(), 1);
    assert_eq!(draws[0].entity, b);
    assert_eq!(draws[0].num_indices, 6);
}

#[test]
fn pipeline_built_once_per_key() {
    let mut render: MeshRender<u32> = MeshRender::new();
    let builds = Cell::new(0u32);
    let build = |_k: &PipelineKey| {
        builds.set(builds.get() + 1);
        builds.get()
    };
    let key = || PipelineKey { material_id: MaterialId(1), vertex_layouts: vec![], env_layout: vec![] };
    let first = render.get_or_create_pipeline(key(), &build);
    let second = render.get_or_create_pipeline(key(), &build);
    assert_eq!(first, second);
    assert_eq!(builds.get(), 1);
    let other = render.get_or_create_pipeline(
        PipelineKey { material_id: MaterialId(2), vertex_layouts: vec![], env_layout: vec![] },
        &build,
    );
    assert_ne!(other, first);
    assert_eq!(render.pipeline_count(), 2);
    assert!(render.find_pipeline(&key()).is_some());
}

#[test]
fn instanced_entity_binds_instance_buffer() {
    let mut w: TestWorld = World::new();
    w.resource_manager.init_standard_layouts();
    let mesh = w.resource_manager.add_mesh(Mesh::new("M", 36, VertexFormat::PositionNormalTexture), None);
    let mat = w.resource_manager.add_material("X", None);
    let a = w.create_entity();
    w.mesh_renderers.insert(a, MeshRenderer::new(mesh, mat));
    w.instances.insert(a, Instance::new(vec![1, 2, 3, 4, 5]));
    let id = w.resource_manager.sync_instance_buffer(a, &[0u8; 720], || 11, |_b: &u32| {}).unwrap();
    let env = plan_environment(&w);
    let mut render: MeshRender<usize> = MeshRender::new();
    let draws = render.prepare_frame(&w, &env, &|k: &PipelineKey| k.vertex_layouts.len());
    assert_eq!(draws[0].instance_buffer, Some(id));
    assert_eq!(draws[0].instance_count, 5);
    assert_eq!(*render.get_pipeline(draws[0].pipeline), 2);
}

#[test]
fn environment_holds_main_camera_and_lights() {
    let mut w: TestWorld = World::new();
    let cam = w.create_entity();
    w.perspective_cameras.insert(cam, Camera::new("c", 0));
    let env = plan_environment(&w);
    assert_eq!(env.index, ENV_BIND_GROUP_INDEX);
    assert_eq!(env.camera, None);
    assert_eq!(env.entries, vec![EnvLayoutEntry { binding: LIGHT_BINDING_INDEX, kind: EnvBindingKind::Lights }]);
    w.set_main_camera(cam, CameraType::Perspective);
    let env = plan_environment(&w);
    assert_eq!(env.camera, Some((cam, CameraType::Perspective)));
    assert_eq!(
        env.entries,
        vec![
            EnvLayoutEntry { binding: 0, kind: EnvBindingKind::Camera },
            EnvLayoutEntry { binding: 2, kind: EnvBindingKind::Lights }
        ]
    );
}

#[test]
fn lights_beyond_caps_are_dropped_first_registered_win() {
    let mut w: TestWorld = World::new();
    let mut dirs = Vec::new();
    for i in 0..10u32 {
        let e = w.create_entity();
        w.directional_lights.insert(e, Light::new(i, 1));
        dirs.push(e);
    }
    let mut ambs = Vec::new();
    for i in 0..3u32 {
        let e = w.create_entity();
        w.ambient_lights.insert(e, Light::new(i, 1));
        ambs.push(e);
    }
    let lights = collect_light_bindings(&w);
    assert_eq!(lights.directional_lights, dirs[..8].to_vec());
    assert_eq!(lights.ambient_lights, ambs);
    let all = get_all_lights(&w);
    assert_eq!(all.directional_lights.len(), 10);
}

#[test]
fn repeated_frames_build_nothing_new() {
    let mut w: TestWorld = World::new();
    let mesh = w.resource_manager.add_mesh(Mesh::new("M", 3, VertexFormat::PositionOnly), None);
    let mat = w.resource_manager.add_material("X", None);
    let other = w.resource_manager.add_material("Y", None);
    for m in [mat, mat, other] {
        let e = w.create_entity();
        w.mesh_renderers.insert(e, MeshRenderer::new(mesh, m));
    }
    let env = plan_environment(&w);
    let builds = Cell::new(0u32);
    let build = |_k: &PipelineKey| {
        builds.set(builds.get() + 1);
        builds.get()
    };
    let mut render: MeshRender<u32> = MeshRender::new();
    render.prepare_frame(&w, &env, &build);
    render.prepare_frame(&w, &env, &build);
    assert_eq!(render.pipeline_count(), 2);
    assert_eq!(builds.get(), 2);
}

//! Entity/component storage, GPU resource bookkeeping and per-frame render
//! planning for a small real-time 3D engine.
//!
//! The GPU backend itself (devices, buffers, pipelines, bind groups) is a black
//! box to this crate: GPU objects are carried as opaque type parameters, and
//! GPU work is done by the caller or through caller-supplied closures.
//!
//! - `entity`, `component_storage`: entity ids and the sparse-set storage.
//! - `components`, `hierarchy`, `world`: component types, the scene graph,
//!   and the world that owns one storage per kind plus the resource manager.
//! - `id_map`, `name_index`, `layout`, `mesh`, `resource_manager`,
//!   `env_bind_group_manager`: resources behind integer handles and names.
//! - `mesh_render`: the pipeline cache, the environment group and the per-frame
//!   draw list.
//! - `shader`: the shader source preprocessor.
//! - `config`: plain settings and result records.
pub mod entity;
pub mod component_storage;
pub mod name_index;
pub mod id_map;
pub mod layout;
pub mod mesh;
pub mod resource_manager;
pub mod components;
pub mod world;
pub mod mesh_render;
pub mod env_bind_group_manager;
pub mod config;
pub mod shader;
pub mod hierarchy;

use vstd::prelude::*;

use crate::entity::Entity;
use crate::resource_manager::{MaterialId, MeshId};

verus! {

/// Window size the engine starts with.
pub struct MiniGPUConfig {
    pub width: u32,
    pub height: u32,
}

/// Surface size the renderer is configured for.
pub struct RendererConfig {
    pub width: u32,
    pub height: u32,
}

/// Settings of the physically based material (none yet).
pub struct PBRMaterialConfig {}

/// Distinguishes the vertex inputs a basic material's pipeline expects.
#[derive(Debug, Clone, Copy, PartialEq, Eq, Hash, Structural)]
pub struct VertexFormatKey {
    pub has_texture: bool,
}

/// What loading a model file produced: a root entity, one entity per mesh, and
/// the materials and meshes registered for them.
pub struct LoadedModel {
    pub root_entity: Entity,
    pub mesh_entities: Vec<Entity>,
    pub material_ids: Vec<MaterialId>,
    pub mesh_ids: Vec<MeshId>,
}

} // verus!

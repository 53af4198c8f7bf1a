use vstd::prelude::*;

use crate::resource_manager::{MaterialId, MeshId, INVALID_ID};

verus! {

/// Marks an entity as drawable with a mesh and a material.
#[derive(Debug, Clone, Copy, PartialEq, Eq, Structural)]
pub struct MeshRenderer {
    pub mesh_id: MeshId,
    pub material_id: MaterialId,
    pub visible: bool,
    /// Draw layer; higher layers draw later.
    pub layer: i32,
    pub cast_shadows: bool,
    pub receive_shadows: bool,
    /// Ordering within a layer.
    pub priority: i32,
}

impl MeshRenderer {
    pub fn new(mesh_id: MeshId, material_id: MaterialId) -> (r: Self)
        ensures
            r == (MeshRenderer {
                mesh_id,
                material_id,
                visible: true,
                layer: 0,
                cast_shadows: true,
                receive_shadows: true,
                priority: 0,
            }),
    {
        MeshRenderer {
            mesh_id,
            material_id,
            visible: true,
            layer: 0,
            cast_shadows: true,
            receive_shadows: true,
            priority: 0,
        }
    }

    pub fn invisible(mesh_id: MeshId, material_id: MaterialId) -> (r: Self)
        ensures
            r == (MeshRenderer {
                mesh_id,
                material_id,
                visible: false,
                layer: 0,
                cast_shadows: false,
                receive_shadows: false,
                priority: 0,
            }),
    {
        MeshRenderer {
            mesh_id,
            material_id,
            visible: false,
            layer: 0,
            cast_shadows: false,
            receive_shadows: false,
            priority: 0,
        }
    }

    pub fn with_visibility(self, visible: bool) -> (r: Self)
        ensures
            r == (MeshRenderer { visible, ..self }),
    {
        MeshRenderer { visible, ..self }
    }

    pub fn with_layer(self, layer: i32) -> (r: Self)
        ensures
            r == (MeshRenderer { layer, ..self }),
    {
        MeshRenderer { layer, ..self }
    }

    pub fn with_shadows(self, cast: bool, receive: bool) -> (r: Self)
        ensures
            r == (MeshRenderer { cast_shadows: cast, receive_shadows: receive, ..self }),
    {
        MeshRenderer { cast_shadows: cast, receive_shadows: receive, ..self }
    }

    pub fn with_priority(self, priority: i32) -> (r: Self)
        ensures
            r == (MeshRenderer { priority, ..self }),
    {
        MeshRenderer { priority, ..self }
    }

    pub fn show(&mut self)
        ensures
            *final(self) == (MeshRenderer { visible: true, ..*old(self) }),
    {
        self.visible = true;
    }

    pub fn set_hidden(&mut self)
        ensures
            *final(self) == (MeshRenderer { visible: false, ..*old(self) }),
    {
        self.visible = false;
    }

    pub fn toggle_visibility(&mut self)
        ensures
            *final(self) == (MeshRenderer { visible: !old(self).visible, ..*old(self) }),
    {
        self.visible = !self.visible;
    }

    /// Both resource handles are set.
    pub fn is_valid(&self) -> (r: bool)
        ensures
            r == (self.mesh_id.0 != INVALID_ID && self.material_id.0 != INVALID_ID),
    {
        self.mesh_id.is_valid() && self.material_id.is_valid()
    }

    /// Visible, and both resource handles are set.
    pub fn should_render(&self) -> (r: bool)
        ensures
            r == (self.visible && self.mesh_id.0 != INVALID_ID && self.material_id.0 != INVALID_ID),
    {
        self.visible && self.is_valid()
    }

    pub fn set_mesh(&mut self, mesh_id: MeshId)
        ensures
            *final(self) == (MeshRenderer { mesh_id, ..*old(self) }),
    {
        self.mesh_id = mesh_id;
    }

    pub fn set_material(&mut self, material_id: MaterialId)
        ensures
            *final(self) == (MeshRenderer { material_id, ..*old(self) }),
    {
        self.material_id = material_id;
    }

    /// The draw-order key: layer first, then priority.
    pub fn sort_key(&self) -> (r: (i32, i32))
        ensures
            r == (self.layer, self.priority),
    {
        (self.layer, self.priority)
    }
}

impl Default for MeshRenderer {
    fn default() -> (r: Self)
        ensures
            r == (MeshRenderer {
                mesh_id: MeshId(INVALID_ID),
                material_id: MaterialId(INVALID_ID),
                visible: false,
                layer: 0,
                cast_shadows: false,
                receive_shadows: false,
                priority: 0,
            }),
    {
        MeshRenderer {
            mesh_id: MeshId::invalid(),
            material_id: MaterialId::invalid(),
            visible: false,
            layer: 0,
            cast_shadows: false,
            receive_shadows: false,
            priority: 0,
        }
    }
}

/// Per-entity instance records (one transform each), with a flag telling the
/// renderer that the GPU copy is out of date.
pub struct Instance<D> {
    pub data: Vec<D>,
    pub dirty: bool,
}

impl<D> Instance<D> {
    pub fn new(data: Vec<D>) -> (r: Self)
        ensures
            r.data@ == data@,
            r.dirty,
    {
        Instance { data, dirty: true }
    }

    pub fn single(instance_data: D) -> (r: Self)
        ensures
            r.data@ == seq![instance_data],
            r.dirty,
    {
        let mut data: Vec<D> = Vec::new();
        data.push(instance_data);
        Instance::new(data)
    }

    pub fn add_instance(&mut self, instance_data: D)
        ensures
            final(self).data@ == old(self).data@.push(instance_data),
            final(self).dirty,
    {
        self.data.push(instance_data);
        self.dirty = true;
    }

    /// Replaces record `index`; an index past the end changes nothing.
    pub fn update_instance(&mut self, index: usize, instance_data: D)
        ensures
            index < old(self).data.len() ==> final(self).data@ == old(self).data@.update(index as int, instance_data)
                && final(self).dirty,
            index >= old(self).data.len() ==> final(self).data@ == old(self).data@ && final(self).dirty == old(self).dirty,
    {
        if index < self.data.len() {
            self.data.set(index, instance_data);
            self.dirty = true;
        }
    }

    /// Removes record `index`, shifting later records down; an index past the
    /// end changes nothing.
    pub fn remove_instance(&mut self, index: usize)
        ensures
            index < old(self).data.len() ==> final(self).data@ == old(self).data@.remove(index as int)
                && final(self).dirty,
            index >= old(self).data.len() ==> final(self).data@ == old(self).data@ && final(self).dirty == old(self).dirty,
    {
        if index < self.data.len() {
            self.data.remove(index);
            self.dirty = true;
        }
    }

    pub fn clear(&mut self)
        ensures
            final(self).data@ == Seq::<D>::empty(),
            final(self).dirty,
    {
        self.data.clear();
        self.dirty = true;
    }

    pub fn count(&self) -> (r: usize)
        ensures
            r == self.data@.len(),
    {
        self.data.len()
    }

    pub fn is_empty(&self) -> (r: bool)
        ensures
            r == (self.data@.len() == 0),
    {
        self.data.len() == 0
    }

    pub fn mark_dirty(&mut self)
        ensures
            final(self).data@ == old(self).data@,
            final(self).dirty,
    {
        self.dirty = true;
    }

    pub fn mark_clean(&mut self)
        ensures
            final(self).data@ == old(self).data@,
            !final(self).dirty,
    {
        self.dirty = false;
    }

    pub fn is_dirty(&self) -> (r: bool)
        ensures
            r == self.dirty,
    {
        self.dirty
    }
}

impl<D> Default for Instance<D> {
    fn default() -> (r: Self)
        ensures
            r.data@ == Seq::<D>::empty(),
            r.dirty,
    {
        Instance::new(Vec::new())
    }
}

/// The two kinds of camera.
#[derive(Debug, Clone, Copy, PartialEq, Eq, Structural)]
pub enum CameraType {
    Perspective,
    Orthographic,
}

/// The part of a camera that the world and the renderer decide on: where its
/// uniform binds in the environment group, whether it is the main camera, and
/// whether its uniform must be rewritten.
#[derive(Debug, Clone, Copy, PartialEq, Eq, Structural)]
pub struct CameraData {
    pub bind_index: u32,
    pub is_main: bool,
    pub dirty: bool,
}

impl CameraData {
    /// A camera that is not main and whose uniform is still to be written.
    pub fn new(bind_index: u32) -> (r: Self)
        ensures
            r == (CameraData { bind_index, is_main: false, dirty: true }),
    {
        CameraData { bind_index, is_main: false, dirty: true }
    }

    pub fn update_dirty_flag(&mut self)
        ensures
            *final(self) == (CameraData { dirty: true, ..*old(self) }),
    {
        self.dirty = true;
    }
}

/// A camera component: its projection settings `C` (position, target, field
/// of view or extents) and its `CameraData`.
pub struct Camera<C> {
    pub config: C,
    pub camera_data: CameraData,
}

impl<C> Camera<C> {
    pub fn new(config: C, bind_index: u32) -> (r: Self)
        ensures
            r.config == config,
            r.camera_data == (CameraData { bind_index, is_main: false, dirty: true }),
    {
        Camera { config, camera_data: CameraData::new(bind_index) }
    }

    /// Replaces the projection settings and marks the uniform stale.
    pub fn set_config(&mut self, config: C)
        ensures
            final(self).config == config,
            final(self).camera_data == (CameraData { dirty: true, ..old(self).camera_data }),
    {
        self.config = config;
        self.camera_data.update_dirty_flag();
    }
}

/// The kinds of light.
#[derive(Debug, Clone, Copy, PartialEq, Eq, Structural)]
pub enum LightType {
    Directional,
    Point,
    Spot,
    Ambient,
}

/// A light component: its colour, intensity and direction `L`, whether it is
/// switched on, and its binding slot.
pub struct Light<L> {
    pub params: L,
    pub enabled: bool,
    pub bind_index: u32,
}

impl<L> Light<L> {
    /// A light that is switched on.
    pub fn new(params: L, bind_index: u32) -> (r: Self)
        ensures
            r.params == params,
            r.enabled,
            r.bind_index == bind_index,
    {
        Light { params, enabled: true, bind_index }
    }
}

} // verus!

use vstd::prelude::*;

use crate::layout::{
    create_vertex_attributes, format_attributes, format_stride, StepMode, VertexAttribute,
    VertexFormat, VertexLayout,
};

verus! {

/// A mesh: its GPU-side vertex and index buffers (opaque to this crate), the
/// number of indices to draw, and the vertex layout a pipeline needs for it.
pub struct Mesh<M> {
    pub gpu: M,
    pub num_indices: u32,
    pub vertex_format: VertexFormat,
    pub layout: VertexLayout,
}

impl<M> Mesh<M> {
    /// A mesh whose layout is derived from `format`: per-vertex stepping, the
    /// format's attributes and its stride.
    pub fn new(gpu: M, num_indices: u32, format: VertexFormat) -> (r: Mesh<M>)
        ensures
            r.gpu == gpu,
            r.num_indices == num_indices,
            r.vertex_format == format,
            r.layout@ == (format_stride(format) as u64, StepMode::Vertex, format_attributes(format)),
    {
        let (attributes, stride) = create_vertex_attributes(format);
        Mesh {
            gpu,
            num_indices,
            vertex_format: format,
            layout: VertexLayout { array_stride: stride as u64, step_mode: StepMode::Vertex, attributes },
        }
    }

    /// Switches the mesh to a custom layout.
    pub fn set_custom_attributes(&mut self, attributes: Vec<VertexAttribute>, stride: u64)
        ensures
            final(self).gpu == old(self).gpu,
            final(self).num_indices == old(self).num_indices,
            final(self).vertex_format == VertexFormat::Custom,
            final(self).layout@ == (stride, old(self).layout.step_mode, attributes@),
    {
        self.vertex_format = VertexFormat::Custom;
        self.layout.array_stride = stride;
        self.layout.attributes = attributes;
    }

    pub fn get_buffer_layout(&self) -> (r: VertexLayout)
        ensures
            r@ == self.layout@,
    {
        self.layout.duplicate()
    }

    pub fn get_vertex_format(&self) -> (r: VertexFormat)
        ensures
            r == self.vertex_format,
    {
        self.vertex_format
    }
}

} // verus!

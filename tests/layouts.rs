use mini_gpu::layout::{create_vertex_attributes, instance_buffer_layout, AttributeFormat, StepMode, VertexAttribute, VertexFormat};
use mini_gpu::mesh::Mesh;

fn attr(format: AttributeFormat, offset: u64, shader_location: u32) -> VertexAttribute {
    VertexAttribute { format, offset, shader_location }
}

#[test]
fn vertex_format_attribute_table() {
    assert_eq!(create_vertex_attributes(VertexFormat::PositionOnly), (vec![attr(AttributeFormat::Float32x3, 0, 0)], 12));
    assert_eq!(
        create_vertex_attributes(VertexFormat::PositionTexture),
        (vec![attr(AttributeFormat::Float32x3, 0, 0), attr(AttributeFormat::Float32x2, 12, 2)], 20)
    );
    assert_eq!(
        create_vertex_attributes(VertexFormat::PositionNormal),
        (vec![attr(AttributeFormat::Float32x3, 0, 0), attr(AttributeFormat::Float32x3, 12, 1)], 24)
    );
    assert_eq!(
        create_vertex_attributes(VertexFormat::PositionNormalTexture),
        (
            vec![
                attr(AttributeFormat::Float32x3, 0, 0),
                attr(AttributeFormat::Float32x3, 12, 1),
                attr(AttributeFormat::Float32x2, 24, 2)
            ],
            32
        )
    );
    assert_eq!(create_vertex_attributes(VertexFormat::Custom), (vec![], 0));
}

#[test]
fn instance_layout_columns() {
    let l = instance_buffer_layout();
    assert_eq!(l.array_stride, 144);
    assert_eq!(l.step_mode, StepMode::Instance);
    for i in 0..8u32 {
        assert_eq!(l.attributes[i as usize], attr(AttributeFormat::Float32x4, 16 * i as u64, 5 + i));
    }
}

#[test]
fn mesh_layout_follows_format_and_custom_override() {
    let mut m = Mesh::new((), 36, VertexFormat::PositionNormal);
    assert_eq!(m.get_buffer_layout().array_stride, 24);
    assert_eq!(m.get_buffer_layout().step_mode, StepMode::Vertex);
    assert!(m.layout.same_as(&m.get_buffer_layout()));
    m.set_custom_attributes(vec![attr(AttributeFormat::Float32x4, 0, 0)], 16);
    assert_eq!(m.get_vertex_format(), VertexFormat::Custom);
    assert_eq!(m.get_buffer_layout().array_stride, 16);
    assert_eq!(m.get_buffer_layout().attributes, vec![attr(AttributeFormat::Float32x4, 0, 0)]);
}

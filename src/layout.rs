use vstd::prelude::*;

verus! {

/// The data format of one vertex attribute.
#[derive(Debug, Clone, Copy, PartialEq, Eq, Hash, Structural)]
pub enum AttributeFormat {
    Float32x2,
    Float32x3,
    Float32x4,
    Uint32,
}

/// Whether a vertex buffer advances per vertex or per instance.
#[derive(Debug, Clone, Copy, PartialEq, Eq, Hash, Structural)]
pub enum StepMode {
    Vertex,
    Instance,
}

/// One attribute of a vertex buffer layout.
#[derive(Debug, Clone, Copy, PartialEq, Eq, Hash, Structural)]
pub struct VertexAttribute {
    pub format: AttributeFormat,
    pub offset: u64,
    pub shader_location: u32,
}

/// How a vertex buffer is laid out: the byte stride between elements, the step
/// mode, and the attributes read from each element.
#[derive(Debug)]
pub struct VertexLayout {
    pub array_stride: u64,
    pub step_mode: StepMode,
    pub attributes: Vec<VertexAttribute>,
}

/// A vertex layout as a plain value.
pub type LayoutView = (u64, StepMode, Seq<VertexAttribute>);

impl View for VertexLayout {
    type V = LayoutView;

    open spec fn view(&self) -> LayoutView {
        (self.array_stride, self.step_mode, self.attributes@)
    }
}

impl VertexLayout {
    /// A copy with the same stride, step mode and attributes.
    pub fn duplicate(&self) -> (r: VertexLayout)
        ensures
            r@ == self@,
    {
        VertexLayout {
            array_stride: self.array_stride,
            step_mode: self.step_mode,
            attributes: self.attributes.clone(),
        }
    }

    /// Whether two layouts are identical.
    pub fn same_as(&self, other: &VertexLayout) -> (r: bool)
        ensures
            r == (self@ == other@),
    {
        if self.array_stride != other.array_stride || self.step_mode != other.step_mode
            || self.attributes.len() != other.attributes.len() {
            return false;
        }
        let mut i: usize = 0;
        while i < self.attributes.len()
            invariant
                self.attributes.len() == other.attributes.len(),
                self.array_stride == other.array_stride,
                self.step_mode == other.step_mode,
                i <= self.attributes.len(),
                forall|j: int| 0 <= j < i ==> self.attributes@[j] == other.attributes@[j],
            decreases self.attributes.len() - i,
        {
            if self.attributes[i] != other.attributes[i] {
                return false;
            }
            i = i + 1;
        }
        assert(self.attributes@ =~= other.attributes@);
        true
    }
}

/// Whether two lists of layouts are identical, element by element.
pub fn same_layouts(a: &Vec<VertexLayout>, b: &Vec<VertexLayout>) -> (r: bool)
    ensures
        r == (a@.map_values(|l: VertexLayout| l@) == b@.map_values(|l: VertexLayout| l@)),
{
    if a.len() != b.len() {
        proof {
            assert(a@.map_values(|l: VertexLayout| l@).len() != b@.map_values(|l: VertexLayout| l@).len());
        }
        return false;
    }
    let mut i: usize = 0;
    while i < a.len()
        invariant
            a.len() == b.len(),
            i <= a.len(),
            forall|j: int| 0 <= j < i ==> a@[j]@ == b@[j]@,
        decreases a.len() - i,
    {
        if !a[i].same_as(&b[i]) {
            proof {
                assert(a@.map_values(|l: VertexLayout| l@)[i as int] != b@.map_values(|l: VertexLayout| l@)[i as int]);
            }
            return false;
        }
        i = i + 1;
    }
    assert(a@.map_values(|l: VertexLayout| l@) =~= b@.map_values(|l: VertexLayout| l@));
    true
}

/// The vertex formats a mesh can be built from.
#[derive(Debug, Clone, Copy, PartialEq, Eq, Hash, Structural)]
pub enum VertexFormat {
    PositionOnly,
    PositionTexture,
    PositionNormal,
    PositionNormalTexture,
    Custom,
}

pub open spec fn attr(format: AttributeFormat, offset: u64, shader_location: u32) -> VertexAttribute {
    VertexAttribute { format, offset, shader_location }
}

/// The attributes of each vertex format: position at location 0, normal at
/// location 1 and texture coordinates at location 2, packed in that order.
pub open spec fn format_attributes(format: VertexFormat) -> Seq<VertexAttribute> {
    match format {
        VertexFormat::PositionOnly => seq![attr(AttributeFormat::Float32x3, 0, 0)],
        VertexFormat::PositionTexture => seq![
            attr(AttributeFormat::Float32x3, 0, 0),
            attr(AttributeFormat::Float32x2, 12, 2),
        ],
        VertexFormat::PositionNormal => seq![
            attr(AttributeFormat::Float32x3, 0, 0),
            attr(AttributeFormat::Float32x3, 12, 1),
        ],
        VertexFormat::PositionNormalTexture => seq![
            attr(AttributeFormat::Float32x3, 0, 0),
            attr(AttributeFormat::Float32x3, 12, 1),
            attr(AttributeFormat::Float32x2, 24, 2),
        ],
        VertexFormat::Custom => Seq::empty(),
    }
}

/// The byte size of one vertex of each format (zero for a custom format).
pub open spec fn format_stride(format: VertexFormat) -> nat {
    match format {
        VertexFormat::PositionOnly => 12,
        VertexFormat::PositionTexture => 20,
        VertexFormat::PositionNormal => 24,
        VertexFormat::PositionNormalTexture => 32,
        VertexFormat::Custom => 0,
    }
}

/// The attributes and the stride of a vertex format.
pub fn create_vertex_attributes(format: VertexFormat) -> (r: (Vec<VertexAttribute>, usize))
    ensures
        r.0@ == format_attributes(format),
        r.1 == format_stride(format),
{
    let position = VertexAttribute { format: AttributeFormat::Float32x3, offset: 0, shader_location: 0 };
    let mut attributes: Vec<VertexAttribute> = Vec::new();
    let stride: usize;
    match format {
        VertexFormat::PositionOnly => {
            attributes.push(position);
            stride = 12;
        },
        VertexFormat::PositionTexture => {
            attributes.push(position);
            attributes.push(VertexAttribute { format: AttributeFormat::Float32x2, offset: 12, shader_location: 2 });
            stride = 20;
        },
        VertexFormat::PositionNormal => {
            attributes.push(position);
            attributes.push(VertexAttribute { format: AttributeFormat::Float32x3, offset: 12, shader_location: 1 });
            stride = 24;
        },
        VertexFormat::PositionNormalTexture => {
            attributes.push(position);
            attributes.push(VertexAttribute { format: AttributeFormat::Float32x3, offset: 12, shader_location: 1 });
            attributes.push(VertexAttribute { format: AttributeFormat::Float32x2, offset: 24, shader_location: 2 });
            stride = 32;
        },
        VertexFormat::Custom => {
            stride = 0;
        },
    }
    assert(attributes@ =~= format_attributes(format));
    (attributes, stride)
}

/// Bytes per instance record: a model matrix and a normal matrix (16 floats
/// each), an instance id and three padding words.
pub const INSTANCE_DATA_SIZE: u64 = 144;

/// The per-instance attributes: eight four-float columns at shader locations
/// 5 to 12 (model matrix, then normal matrix), then the instance id at location 13.
pub open spec fn instance_attributes() -> Seq<VertexAttribute> {
    Seq::new(8, |i: int| attr(AttributeFormat::Float32x4, (16 * i) as u64, (5 + i) as u32)).push(
        attr(AttributeFormat::Uint32, 128, 13),
    )
}

/// The layout of a per-instance transform buffer.
pub fn instance_buffer_layout() -> (r: VertexLayout)
    ensures
        r@ == (INSTANCE_DATA_SIZE, StepMode::Instance, instance_attributes()),
{
    let mut attributes: Vec<VertexAttribute> = Vec::new();
    let mut i: u32 = 0;
    while i < 8
        invariant
            i <= 8,
            attributes@ =~= Seq::new(i as nat, |j: int| attr(AttributeFormat::Float32x4, (16 * j) as u64, (5 + j) as u32)),
        decreases 8 - i,
    {
        attributes.push(VertexAttribute {
            format: AttributeFormat::Float32x4,
            offset: 16 * i as u64,
            shader_location: 5 + i,
        });
        i = i + 1;
    }
    attributes.push(VertexAttribute { format: AttributeFormat::Uint32, offset: 128, shader_location: 13 });
    assert(attributes@ =~= instance_attributes());
    VertexLayout { array_stride: INSTANCE_DATA_SIZE, step_mode: StepMode::Instance, attributes }
}

} // verus!

use std::collections::HashMap;
use vstd::prelude::*;

use crate::entity::Entity;
use crate::id_map::{map_lookup, IdMap};
use crate::layout::{instance_attributes, instance_buffer_layout, StepMode, VertexLayout, INSTANCE_DATA_SIZE};
use crate::mesh::Mesh;
use crate::name_index::NameIndex;

verus! {

broadcast use vstd::std_specs::hash::group_hash_axioms;

/// The reserved handle value meaning "invalid / unset".
pub const INVALID_ID: u32 = 0xffff_ffff;

#[derive(Debug, Clone, Copy, PartialEq, Eq, Hash, Structural)]
pub struct MeshId(pub u32);

#[derive(Debug, Clone, Copy, PartialEq, Eq, Hash, Structural)]
pub struct MaterialId(pub u32);

#[derive(Debug, Clone, Copy, PartialEq, Eq, Hash, Structural)]
pub struct BufferId(pub u32);

#[derive(Debug, Clone, Copy, PartialEq, Eq, Hash, Structural)]
pub struct BufferLayoutId(pub u32);

impl MeshId {
    pub fn invalid() -> (r: Self)
        ensures
            r.0 == INVALID_ID,
    {
        MeshId(INVALID_ID)
    }

    pub fn is_valid(&self) -> (r: bool)
        ensures
            r == (self.0 != INVALID_ID),
    {
        self.0 != INVALID_ID
    }
}

impl MaterialId {
    pub fn invalid() -> (r: Self)
        ensures
            r.0 == INVALID_ID,
    {
        MaterialId(INVALID_ID)
    }

    pub fn is_valid(&self) -> (r: bool)
        ensures
            r == (self.0 != INVALID_ID),
    {
        self.0 != INVALID_ID
    }
}

impl BufferId {
    pub fn invalid() -> (r: Self)
        ensures
            r.0 == INVALID_ID,
    {
        BufferId(INVALID_ID)
    }

    pub fn is_valid(&self) -> (r: bool)
        ensures
            r == (self.0 != INVALID_ID),
    {
        self.0 != INVALID_ID
    }
}

impl BufferLayoutId {
    pub fn invalid() -> (r: Self)
        ensures
            r.0 == INVALID_ID,
    {
        BufferLayoutId(INVALID_ID)
    }

    pub fn is_valid(&self) -> (r: bool)
        ensures
            r == (self.0 != INVALID_ID),
    {
        self.0 != INVALID_ID
    }
}

/// What a buffer holds.
#[derive(Debug, Clone, Copy, PartialEq, Eq, Hash, Structural)]
pub enum BufferType {
    Transform,
    Light,
    Camera,
    Material,
    Instance,
    Custom(u32),
}

/// How the GPU uses a buffer.
#[derive(Debug, Clone, Copy, PartialEq, Eq, Hash, Structural)]
pub enum BufferUsage {
    Uniform,
    Storage,
    Vertex,
    Index,
}

/// A GPU buffer with its metadata. `size` is the byte size it was created with.
pub struct BufferResource<B> {
    pub buffer: B,
    pub buffer_type: BufferType,
    pub usage: BufferUsage,
    pub size: usize,
    pub bind_index: Option<u32>,
    pub label: Option<String>,
}

impl<B> BufferResource<B> {
    pub fn new(
        buffer: B,
        buffer_type: BufferType,
        usage: BufferUsage,
        size: usize,
        bind_index: Option<u32>,
        label: Option<String>,
    ) -> (r: Self)
        ensures
            r == (BufferResource { buffer, buffer_type, usage, size, bind_index, label }),
    {
        BufferResource { buffer, buffer_type, usage, size, bind_index, label }
    }
}

/// Parameters of a new buffer: its kind, its usage and its initial contents.
pub struct BufferCreateInfo<'a> {
    pub buffer_type: BufferType,
    pub usage: BufferUsage,
    pub data: &'a [u8],
    pub bind_index: Option<u32>,
    pub label: Option<String>,
}

impl<'a> BufferCreateInfo<'a> {
    pub fn new(buffer_type: BufferType, usage: BufferUsage, data: &'a [u8]) -> (r: Self)
        ensures
            r.buffer_type == buffer_type,
            r.usage == usage,
            r.data@ == data@,
            r.bind_index == None::<u32>,
            r.label == None::<String>,
    {
        BufferCreateInfo { buffer_type, usage, data, bind_index: None, label: None }
    }

    pub fn with_bind_index(self, bind_index: u32) -> (r: Self)
        ensures
            r.buffer_type == self.buffer_type,
            r.usage == self.usage,
            r.data@ == self.data@,
            r.bind_index == Some(bind_index),
            r.label == self.label,
    {
        BufferCreateInfo { bind_index: Some(bind_index), ..self }
    }

    pub fn with_label(self, label: String) -> (r: Self)
        ensures
            r.buffer_type == self.buffer_type,
            r.usage == self.usage,
            r.data@ == self.data@,
            r.bind_index == self.bind_index,
            r.label == Some(label),
    {
        BufferCreateInfo { label: Some(label), ..self }
    }
}

/// A registered vertex buffer layout.
pub struct BufferLayoutResource {
    pub layout: VertexLayout,
    pub buffer_type: BufferType,
    pub step_mode: StepMode,
    pub label: Option<String>,
}

/// Why a buffer update was refused.
#[derive(Debug, Clone, Copy, PartialEq, Eq, Structural)]
pub enum BufferError {
    /// No buffer has the given id.
    NotFound,
    /// The written range ends past the buffer's size.
    OutOfBounds,
}

/// The ids, in `order`, of the buffers in `buffers` of type `t`.
pub open spec fn ids_of_type<B>(order: Seq<u32>, buffers: Map<u32, BufferResource<B>>, t: BufferType) -> Seq<BufferId>
    decreases order.len(),
{
    if order.len() == 0 {
        Seq::empty()
    } else {
        let rest = ids_of_type(order.drop_last(), buffers, t);
        if buffers[order.last()].buffer_type == t {
            rest.push(BufferId(order.last()))
        } else {
            rest
        }
    }
}

/// Every id listed by `ids_of_type` comes from `order`.
pub proof fn lemma_ids_of_type_from_order<B>(order: Seq<u32>, buffers: Map<u32, BufferResource<B>>, t: BufferType, id: BufferId)
    requires
        ids_of_type(order, buffers, t).contains(id),
    ensures
        order.contains(id.0),
    decreases order.len(),
{
    if order.len() > 0 {
        let rest = ids_of_type(order.drop_last(), buffers, t);
        if rest.contains(id) {
            lemma_ids_of_type_from_order(order.drop_last(), buffers, t, id);
            let i = choose|i: int| 0 <= i < order.drop_last().len() && order.drop_last()[i] == id.0;
            assert(order[i] == id.0);
        } else {
            let s = ids_of_type(order, buffers, t);
            let i = choose|i: int| 0 <= i < s.len() && s[i] == id;
            assert(order[order.len() - 1] == id.0);
        }
    }
}

/// `ids_of_type` reads only the types of the buffers listed in `order`.
pub proof fn lemma_ids_of_type_same_types<B>(
    order: Seq<u32>,
    b1: Map<u32, BufferResource<B>>,
    b2: Map<u32, BufferResource<B>>,
    t: BufferType,
)
    requires
        forall|j: int| 0 <= j < order.len() ==> #[trigger] b1[order[j]].buffer_type == b2[order[j]].buffer_type,
    ensures
        ids_of_type(order, b1, t) == ids_of_type(order, b2, t),
    decreases order.len(),
{
    if order.len() > 0 {
        let prev = order.drop_last();
        assert forall|j: int| 0 <= j < prev.len() implies #[trigger] b1[prev[j]].buffer_type == b2[prev[j]].buffer_type by {
            assert(prev[j] == order[j]);
        }
        lemma_ids_of_type_same_types(prev, b1, b2, t);
        assert(b1[order[order.len() - 1]].buffer_type == b2[order[order.len() - 1]].buffer_type);
    }
}

/// Taking buffer `order[i]` out of the creation order and the map shortens its
/// type's list by one and leaves every other type's list as long as it was.
pub proof fn lemma_ids_of_type_remove<B>(order: Seq<u32>, buffers: Map<u32, BufferResource<B>>, t: BufferType, i: int)
    requires
        0 <= i < order.len(),
        order.no_duplicates(),
    ensures
        ids_of_type(order.remove(i), buffers.remove(order[i]), t).len() + (if buffers[order[i]].buffer_type == t {
            1int
        } else {
            0int
        }) == ids_of_type(order, buffers, t).len(),
    decreases order.len(),
{
    let k = order[i];
    let n = order.len();
    let b2 = buffers.remove(k);
    let prev = order.drop_last();
    if i == n - 1 {
        assert(order.remove(i) =~= prev);
        assert forall|j: int| 0 <= j < prev.len() implies #[trigger] b2[prev[j]].buffer_type == buffers[prev[j]].buffer_type by {
            assert(prev[j] == order[j]);
            assert(order[j] != k);
        }
        lemma_ids_of_type_same_types(prev, b2, buffers, t);
    } else {
        let o2 = order.remove(i);
        assert(o2.drop_last() =~= prev.remove(i));
        assert(o2.last() == order.last());
        assert(order.last() != k);
        assert(prev[i] == k);
        assert forall|a: int, c: int| 0 <= a < prev.len() && 0 <= c < prev.len() && a != c implies prev[a] != prev[c] by {
            assert(prev[a] == order[a]);
            assert(prev[c] == order[c]);
        }
        lemma_ids_of_type_remove(prev, buffers, t, i);
    }
}

/// The summed byte sizes of the buffers listed in `order`.
pub open spec fn sizes_total<B>(order: Seq<u32>, buffers: Map<u32, BufferResource<B>>) -> nat
    decreases order.len(),
{
    if order.len() == 0 {
        0
    } else {
        sizes_total(order.drop_last(), buffers) + buffers[order.last()].size as nat
    }
}

proof fn lemma_sizes_prefix<B>(order: Seq<u32>, buffers: Map<u32, BufferResource<B>>, i: int)
    requires
        0 <= i <= order.len(),
    ensures
        sizes_total(order.take(i), buffers) <= sizes_total(order, buffers),
    decreases order.len() - i,
{
    if i == order.len() {
        assert(order.take(i) =~= order);
    } else {
        let t = order.take(i + 1);
        assert(t.drop_last() =~= order.take(i));
        lemma_sizes_prefix(order, buffers, i + 1);
    }
}

/// GPU-resident resources behind integer handles: buffers (with metadata),
/// meshes, materials, vertex layouts and per-entity instance buffers, plus name
/// lookups. `B`, `M` and `T` are the GPU buffer, mesh payload and material types.
pub struct ResourceManager<B, M, T> {
    meshes: IdMap<Mesh<M>>,
    materials: IdMap<T>,
    buffers: IdMap<BufferResource<B>>,
    instance_buffers: HashMap<usize, BufferId>,
    buffer_layouts: IdMap<BufferLayoutResource>,
    buffer_layout_names: NameIndex,
    next_buffer_layout_id: u32,
    next_mesh_id: u32,
    next_material_id: u32,
    next_buffer_id: u32,
    mesh_names: NameIndex,
    material_names: NameIndex,
    buffer_names: NameIndex,
}

impl<B, M, T> ResourceManager<B, M, T> {
    pub closed spec fn buffers_view(&self) -> Map<u32, BufferResource<B>> {
        self.buffers@
    }

    /// Ids of the live buffers, in creation order.
    pub closed spec fn buffer_order(&self) -> Seq<u32> {
        self.buffers.key_seq()
    }

    pub closed spec fn buffer_names_view(&self) -> Map<Seq<char>, u32> {
        self.buffer_names@
    }

    pub closed spec fn meshes_view(&self) -> Map<u32, Mesh<M>> {
        self.meshes@
    }

    pub closed spec fn mesh_names_view(&self) -> Map<Seq<char>, u32> {
        self.mesh_names@
    }

    pub closed spec fn materials_view(&self) -> Map<u32, T> {
        self.materials@
    }

    pub closed spec fn material_names_view(&self) -> Map<Seq<char>, u32> {
        self.material_names@
    }

    pub closed spec fn layouts_view(&self) -> Map<u32, BufferLayoutResource> {
        self.buffer_layouts@
    }

    pub closed spec fn layout_names_view(&self) -> Map<Seq<char>, u32> {
        self.buffer_layout_names@
    }

    /// The instance buffer recorded for each entity id.
    pub closed spec fn instance_view(&self) -> Map<usize, BufferId> {
        self.instance_buffers@
    }

    pub closed spec fn next_buffer_id(&self) -> u32 {
        self.next_buffer_id
    }

    pub closed spec fn next_mesh_id(&self) -> u32 {
        self.next_mesh_id
    }

    pub closed spec fn next_material_id(&self) -> u32 {
        self.next_material_id
    }

    pub closed spec fn next_layout_id(&self) -> u32 {
        self.next_buffer_layout_id
    }

    /// The buffers of type `t`, in creation order.
    pub open spec fn buffers_of_type(&self, t: BufferType) -> Seq<BufferId> {
        ids_of_type(self.buffer_order(), self.buffers_view(), t)
    }

    /// `e` has an instance buffer of exactly `len` bytes, so a sync with that
    /// many bytes rewrites it in place.
    pub open spec fn sync_reuses(&self, e: Entity, len: nat) -> bool {
        &&& self.instance_view().contains_key(e.0)
        &&& self.buffers_view().contains_key(self.instance_view()[e.0].0)
        &&& self.buffers_view()[self.instance_view()[e.0].0].size == len
    }

    pub closed spec fn wf(&self) -> bool {
        &&& self.meshes.wf()
        &&& self.materials.wf()
        &&& self.buffers.wf()
        &&& self.buffer_layouts.wf()
        &&& self.buffer_layout_names.wf()
        &&& self.mesh_names.wf()
        &&& self.material_names.wf()
        &&& self.buffer_names.wf()
        &&& 1 <= self.next_buffer_id
        &&& 1 <= self.next_mesh_id
        &&& 1 <= self.next_material_id
        &&& 1 <= self.next_buffer_layout_id
        &&& forall|k: u32| #[trigger] self.buffers@.contains_key(k) ==> 1 <= k < self.next_buffer_id
        &&& forall|k: u32| #[trigger] self.meshes@.contains_key(k) ==> 1 <= k < self.next_mesh_id
        &&& forall|k: u32| #[trigger] self.materials@.contains_key(k) ==> 1 <= k < self.next_material_id
        &&& forall|k: u32| #[trigger] self.buffer_layouts@.contains_key(k) ==> 1 <= k < self.next_buffer_layout_id
    }

    /// The creation order lists each live buffer exactly once, and nothing else.
    pub proof fn lemma_buffer_order(&self)
        requires
            self.wf(),
        ensures
            self.buffer_order().no_duplicates(),
            forall|k: u32| #[trigger] self.buffers_view().contains_key(k) <==> self.buffer_order().contains(k),
    {
        self.buffers.lemma_keys();
    }

    /// A removed (or never created) buffer is not listed under any type.
    pub proof fn lemma_absent_buffer_unlisted(&self, id: BufferId, t: BufferType)
        requires
            self.wf(),
            !self.buffers_view().contains_key(id.0),
        ensures
            !self.buffers_of_type(t).contains(id),
    {
        self.buffers.lemma_keys();
        if self.buffers_of_type(t).contains(id) {
            lemma_ids_of_type_from_order(self.buffer_order(), self.buffers_view(), t, id);
        }
    }

    pub fn new() -> (r: Self)
        ensures
            r.wf(),
            r.buffers_view() == Map::<u32, BufferResource<B>>::empty(),
            r.meshes_view() == Map::<u32, Mesh<M>>::empty(),
            r.materials_view() == Map::<u32, T>::empty(),
            r.layouts_view() == Map::<u32, BufferLayoutResource>::empty(),
            r.instance_view() == Map::<usize, BufferId>::empty(),
            r.buffer_names_view() == Map::<Seq<char>, u32>::empty(),
            r.mesh_names_view() == Map::<Seq<char>, u32>::empty(),
            r.material_names_view() == Map::<Seq<char>, u32>::empty(),
            r.layout_names_view() == Map::<Seq<char>, u32>::empty(),
            r.next_buffer_id() == 1,
            r.next_mesh_id() == 1,
            r.next_material_id() == 1,
            r.next_layout_id() == 1,
    {
        ResourceManager {
            meshes: IdMap::new(),
            materials: IdMap::new(),
            buffers: IdMap::new(),
            instance_buffers: HashMap::new(),
            buffer_layouts: IdMap::new(),
            buffer_layout_names: NameIndex::new(),
            next_buffer_layout_id: 1,
            next_mesh_id: 1,
            next_material_id: 1,
            next_buffer_id: 1,
            mesh_names: NameIndex::new(),
            material_names: NameIndex::new(),
            buffer_names: NameIndex::new(),
        }
    }

    /// True while another buffer id can be handed out.
    pub fn has_buffer_ids_left(&self) -> (r: bool)
        ensures
            r == (self.next_buffer_id() < INVALID_ID),
    {
        self.next_buffer_id < INVALID_ID
    }

    /// Records `buffer`, created by the caller from `create_info`, under a
    /// fresh id; indexes it by type (creation order) and, if labelled, by name.
    pub fn create_buffer(&mut self, create_info: BufferCreateInfo, buffer: B) -> (id: BufferId)
        requires
            old(self).wf(),
            old(self).next_buffer_id() < INVALID_ID,
        ensures
            final(self).wf(),
            id.0 == old(self).next_buffer_id(),
            id.0 != INVALID_ID,
            final(self).next_buffer_id() == old(self).next_buffer_id() + 1,
            !old(self).buffers_view().contains_key(id.0),
            final(self).buffers_view() == old(self).buffers_view().insert(
                id.0,
                BufferResource {
                    buffer,
                    buffer_type: create_info.buffer_type,
                    usage: create_info.usage,
                    size: create_info.data@.len() as usize,
                    bind_index: create_info.bind_index,
                    label: create_info.label,
                },
            ),
            final(self).buffers_view()[id.0].size == create_info.data@.len(),
            final(self).buffer_order() == old(self).buffer_order().push(id.0),
            final(self).buffer_names_view() == match create_info.label {
                Some(l) => old(self).buffer_names_view().insert(l@, id.0),
                None => old(self).buffer_names_view(),
            },
            final(self).instance_view() == old(self).instance_view(),
            final(self).meshes_view() == old(self).meshes_view(),
            final(self).materials_view() == old(self).materials_view(),
            final(self).layouts_view() == old(self).layouts_view(),
            final(self).mesh_names_view() == old(self).mesh_names_view(),
            final(self).material_names_view() == old(self).material_names_view(),
            final(self).layout_names_view() == old(self).layout_names_view(),
            final(self).next_mesh_id() == old(self).next_mesh_id(),
            final(self).next_material_id() == old(self).next_material_id(),
            final(self).next_layout_id() == old(self).next_layout_id(),
    {
        let id = BufferId(self.next_buffer_id);
        self.next_buffer_id = self.next_buffer_id + 1;
        let label = match &create_info.label {
            Some(l) => Some(l.clone()),
            None => None,
        };
        match label {
            Some(l) => self.buffer_names.insert(l, id.0),
            None => {},
        }
        let resource = BufferResource {
            buffer,
            buffer_type: create_info.buffer_type,
            usage: create_info.usage,
            size: create_info.data.len(),
            bind_index: create_info.bind_index,
            label: create_info.label,
        };
        self.buffers.insert_new(id.0, resource);
        id
    }

    pub fn get_buffer(&self, id: BufferId) -> (r: Option<&BufferResource<B>>)
        requires
            self.wf(),
        ensures
            match r {
                Some(b) => map_lookup(self.buffers_view(), id.0) == Some(*b),
                None => map_lookup(self.buffers_view(), id.0) == None::<BufferResource<B>>,
            },
    {
        self.buffers.get(id.0)
    }

    pub fn get_buffer_mut(&mut self, id: BufferId) -> (r: Option<&mut BufferResource<B>>)
        requires
            old(self).wf(),
        ensures
            match r {
                Some(b) => {
                    &&& map_lookup(old(self).buffers_view(), id.0) == Some(*b)
                    &&& final(self).buffers_view() == old(self).buffers_view().insert(id.0, *final(b))
                    &&& final(self).buffer_order() == old(self).buffer_order()
                },
                None => {
                    &&& map_lookup(old(self).buffers_view(), id.0) == None::<BufferResource<B>>
                    &&& final(self).buffers_view() == old(self).buffers_view()
                    &&& final(self).buffer_order() == old(self).buffer_order()
                },
            },
            final(self).wf(),
            final(self).buffer_names_view() == old(self).buffer_names_view(),
            final(self).instance_view() == old(self).instance_view(),
            final(self).next_buffer_id() == old(self).next_buffer_id(),
    {
        self.buffers.get_mut(id.0)
    }

    pub fn get_buffer_by_name(&self, name: &str) -> (r: Option<&BufferResource<B>>)
        requires
            self.wf(),
        ensures
            match r {
                Some(b) => self.buffer_names_view().contains_key(name@) && map_lookup(
                    self.buffers_view(),
                    self.buffer_names_view()[name@],
                ) == Some(*b),
                None => !self.buffer_names_view().contains_key(name@) || !self.buffers_view().contains_key(
                    self.buffer_names_view()[name@],
                ),
            },
    {
        match self.buffer_names.get(name) {
            Some(id) => self.buffers.get(id),
            None => None,
        }
    }

    /// Checks that `data` fits at `offset` in buffer `id`; if so hands the
    /// buffer to `write`, which performs the GPU write. Never reallocates.
    pub fn update_buffer<W: FnOnce(&B)>(&self, id: BufferId, data: &[u8], offset: u64, write: W) -> (r: Result<(), BufferError>)
        requires
            self.wf(),
            forall|b: &B| #[trigger] write.requires((b,)),
        ensures
            !self.buffers_view().contains_key(id.0) <==> r == Err::<(), BufferError>(BufferError::NotFound),
            self.buffers_view().contains_key(id.0) && offset + data@.len() > self.buffers_view()[id.0].size
                <==> r == Err::<(), BufferError>(BufferError::OutOfBounds),
            self.buffers_view().contains_key(id.0) && offset + data@.len() <= self.buffers_view()[id.0].size
                <==> r == Ok::<(), BufferError>(()),
            r is Ok ==> write.ensures((&self.buffers_view()[id.0].buffer,), ()),
    {
        match self.buffers.get(id.0) {
            None => Err(BufferError::NotFound),
            Some(resource) => {
                let size = resource.size as u64;
                if offset > size || data.len() as u64 > size - offset {
                    Err(BufferError::OutOfBounds)
                } else {
                    write(&resource.buffer);
                    Ok(())
                }
            },
        }
    }

    /// The buffers of type `buffer_type`, in creation order.
    pub fn get_buffers_by_type(&self, buffer_type: BufferType) -> (r: Vec<&BufferResource<B>>)
        requires
            self.wf(),
        ensures
            r.len() == self.buffers_of_type(buffer_type).len(),
            forall|i: int|
                0 <= i < r.len() ==> self.buffers_view().contains_key(
                    self.buffers_of_type(buffer_type)[i].0,
                ) && *#[trigger] r@[i] == self.buffers_view()[self.buffers_of_type(buffer_type)[i].0],
    {
        let mut out: Vec<&BufferResource<B>> = Vec::new();
        let mut i: usize = 0;
        let n = self.buffers.len();
        while i < n
            invariant
                self.wf(),
                n == self.buffer_order().len(),
                i <= n,
                out.len() == ids_of_type(self.buffer_order().subrange(0, i as int), self.buffers_view(), buffer_type).len(),
                forall|j: int|
                    0 <= j < out.len() ==> *#[trigger] out@[j] == self.buffers_view()[ids_of_type(
                        self.buffer_order().subrange(0, i as int),
                        self.buffers_view(),
                        buffer_type,
                    )[j].0],
            decreases n - i,
        {
            let (k, res) = self.buffers.entry_at(i);
            let ghost s0 = self.buffer_order().subrange(0, i as int);
            let ghost s1 = self.buffer_order().subrange(0, i as int + 1);
            proof {
                assert(s1.drop_last() =~= s0);
                assert(s1.last() == k);
            }
            if res.buffer_type == buffer_type {
                let ghost prev = out@;
                out.push(res);
                proof {
                    let a = ids_of_type(s0, self.buffers_view(), buffer_type);
                    let b = ids_of_type(s1, self.buffers_view(), buffer_type);
                    assert(b == a.push(BufferId(k)));
                    assert forall|j: int| 0 <= j < out.len() implies *#[trigger] out@[j] == self.buffers_view()[b[j].0] by {
                        if j < prev.len() {
                            assert(out@[j] == prev[j]);
                            assert(b[j] == a[j]);
                        } else {
                            assert(b[j] == BufferId(k));
                        }
                    }
                }
            } else {
                proof {
                    assert(ids_of_type(s1, self.buffers_view(), buffer_type) == ids_of_type(s0, self.buffers_view(), buffer_type));
                }
            }
            i = i + 1;
        }
        proof {
            assert(self.buffer_order().subrange(0, n as int) =~= self.buffer_order());
            self.buffers.lemma_keys();
            let ids = self.buffers_of_type(buffer_type);
            assert forall|j: int| 0 <= j < ids.len() implies self.buffers_view().contains_key(#[trigger] ids[j].0) by {
                assert(ids.contains(ids[j]));
                lemma_ids_of_type_from_order(self.buffer_order(), self.buffers_view(), buffer_type, ids[j]);
            }
        }
        out
    }

    /// Removes buffer `id` from the id map, the type index and the name index.
    pub fn remove_buffer(&mut self, id: BufferId) -> (r: Option<BufferResource<B>>)
        requires
            old(self).wf(),
        ensures
            final(self).wf(),
            r == map_lookup(old(self).buffers_view(), id.0),
            final(self).buffers_view() == old(self).buffers_view().remove(id.0),
            old(self).buffers_view().contains_key(id.0) ==> final(self).buffer_order()
                == old(self).buffer_order().remove(old(self).buffer_order().index_of(id.0)),
            old(self).buffers_view().contains_key(id.0) ==> final(self).buffer_names_view()
                == old(self).buffer_names_view().restrict(
                old(self).buffer_names_view().dom().filter(
                    |k: Seq<char>| old(self).buffer_names_view()[k] != id.0,
                ),
            ),
            !old(self).buffers_view().contains_key(id.0) ==> final(self).buffer_order() == old(self).buffer_order()
                && final(self).buffer_names_view() == old(self).buffer_names_view(),
            old(self).buffers_view().contains_key(id.0) ==> final(self).buffer_order().len() == old(self).buffer_order().len() - 1,
            old(self).buffers_view().contains_key(id.0) ==> forall|t: BufferType|
                #[trigger] final(self).buffers_of_type(t).len() + (if old(self).buffers_view()[id.0].buffer_type == t {
                    1int
                } else {
                    0int
                }) == old(self).buffers_of_type(t).len(),
            final(self).instance_view() == old(self).instance_view(),
            final(self).next_buffer_id() == old(self).next_buffer_id(),
            final(self).meshes_view() == old(self).meshes_view(),
            final(self).materials_view() == old(self).materials_view(),
            final(self).layouts_view() == old(self).layouts_view(),
    {
        proof {
            old(self).lemma_buffer_order();
            if old(self).buffers_view().contains_key(id.0) {
                let o = old(self).buffer_order();
                let i = o.index_of(id.0);
                assert(o[i] == id.0);
                assert forall|t: BufferType| #[trigger] ids_of_type(o.remove(i), old(self).buffers_view().remove(id.0), t).len()
                    + (if old(self).buffers_view()[id.0].buffer_type == t { 1int } else { 0int })
                    == ids_of_type(o, old(self).buffers_view(), t).len() by {
                    lemma_ids_of_type_remove(o, old(self).buffers_view(), t, i);
                }
            }
        }
        let removed = self.buffers.remove(id.0);
        if removed.is_some() {
            self.buffer_names.remove_id(id.0);
        }
        removed
    }

    pub fn add_mesh(&mut self, mesh: Mesh<M>, name: Option<String>) -> (id: MeshId)
        requires
            old(self).wf(),
            old(self).next_mesh_id() < INVALID_ID,
        ensures
            final(self).wf(),
            id.0 == old(self).next_mesh_id(),
            id.0 != INVALID_ID,
            final(self).next_mesh_id() == old(self).next_mesh_id() + 1,
            !old(self).meshes_view().contains_key(id.0),
            final(self).meshes_view() == old(self).meshes_view().insert(id.0, mesh),
            final(self).mesh_names_view() == match name {
                Some(n) => old(self).mesh_names_view().insert(n@, id.0),
                None => old(self).mesh_names_view(),
            },
            final(self).materials_view() == old(self).materials_view(),
            final(self).buffers_view() == old(self).buffers_view(),
            final(self).instance_view() == old(self).instance_view(),
            final(self).layouts_view() == old(self).layouts_view(),
            final(self).next_buffer_id() == old(self).next_buffer_id(),
            final(self).next_material_id() == old(self).next_material_id(),
    {
        let id = MeshId(self.next_mesh_id);
        self.next_mesh_id = self.next_mesh_id + 1;
        self.meshes.insert_new(id.0, mesh);
        match name {
            Some(n) => self.mesh_names.insert(n, id.0),
            None => {},
        }
        id
    }

    pub fn get_mesh(&self, id: MeshId) -> (r: Option<&Mesh<M>>)
        requires
            self.wf(),
        ensures
            match r {
                Some(m) => map_lookup(self.meshes_view(), id.0) == Some(*m),
                None => map_lookup(self.meshes_view(), id.0) == None::<Mesh<M>>,
            },
    {
        self.meshes.get(id.0)
    }

    pub fn get_mesh_mut(&mut self, id: MeshId) -> (r: Option<&mut Mesh<M>>)
        requires
            old(self).wf(),
        ensures
            match r {
                Some(m) => {
                    &&& map_lookup(old(self).meshes_view(), id.0) == Some(*m)
                    &&& final(self).meshes_view() == old(self).meshes_view().insert(id.0, *final(m))
                },
                None => {
                    &&& map_lookup(old(self).meshes_view(), id.0) == None::<Mesh<M>>
                    &&& final(self).meshes_view() == old(self).meshes_view()
                },
            },
            final(self).wf(),
            final(self).materials_view() == old(self).materials_view(),
            final(self).buffers_view() == old(self).buffers_view(),
            final(self).instance_view() == old(self).instance_view(),
            final(self).next_mesh_id() == old(self).next_mesh_id(),
    {
        self.meshes.get_mut(id.0)
    }

    pub fn get_mesh_by_name(&self, name: &str) -> (r: Option<&Mesh<M>>)
        requires
            self.wf(),
        ensures
            match r {
                Some(m) => self.mesh_names_view().contains_key(name@) && map_lookup(
                    self.meshes_view(),
                    self.mesh_names_view()[name@],
                ) == Some(*m),
                None => !self.mesh_names_view().contains_key(name@) || !self.meshes_view().contains_key(
                    self.mesh_names_view()[name@],
                ),
            },
    {
        match self.mesh_names.get(name) {
            Some(id) => self.meshes.get(id),
            None => None,
        }
    }

    pub fn add_material(&mut self, material: T, name: Option<String>) -> (id: MaterialId)
        requires
            old(self).wf(),
            old(self).next_material_id() < INVALID_ID,
        ensures
            final(self).wf(),
            id.0 == old(self).next_material_id(),
            id.0 != INVALID_ID,
            final(self).next_material_id() == old(self).next_material_id() + 1,
            !old(self).materials_view().contains_key(id.0),
            final(self).materials_view() == old(self).materials_view().insert(id.0, material),
            final(self).material_names_view() == match name {
                Some(n) => old(self).material_names_view().insert(n@, id.0),
                None => old(self).material_names_view(),
            },
            final(self).meshes_view() == old(self).meshes_view(),
            final(self).buffers_view() == old(self).buffers_view(),
            final(self).instance_view() == old(self).instance_view(),
            final(self).layouts_view() == old(self).layouts_view(),
            final(self).next_buffer_id() == old(self).next_buffer_id(),
            final(self).next_mesh_id() == old(self).next_mesh_id(),
    {
        let id = MaterialId(self.next_material_id);
        self.next_material_id = self.next_material_id + 1;
        self.materials.insert_new(id.0, material);
        match name {
            Some(n) => self.material_names.insert(n, id.0),
            None => {},
        }
        id
    }

    pub fn get_material(&self, id: MaterialId) -> (r: Option<&T>)
        requires
            self.wf(),
        ensures
            match r {
                Some(m) => map_lookup(self.materials_view(), id.0) == Some(*m),
                None => map_lookup(self.materials_view(), id.0) == None::<T>,
            },
    {
        self.materials.get(id.0)
    }

    pub fn get_material_mut(&mut self, id: MaterialId) -> (r: Option<&mut T>)
        requires
            old(self).wf(),
        ensures
            match r {
                Some(m) => {
                    &&& map_lookup(old(self).materials_view(), id.0) == Some(*m)
                    &&& final(self).materials_view() == old(self).materials_view().insert(id.0, *final(m))
                },
                None => {
                    &&& map_lookup(old(self).materials_view(), id.0) == None::<T>
                    &&& final(self).materials_view() == old(self).materials_view()
                },
            },
            final(self).wf(),
            final(self).meshes_view() == old(self).meshes_view(),
            final(self).buffers_view() == old(self).buffers_view(),
            final(self).instance_view() == old(self).instance_view(),
            final(self).next_material_id() == old(self).next_material_id(),
    {
        self.materials.get_mut(id.0)
    }

    pub fn get_material_by_name(&self, name: &str) -> (r: Option<&T>)
        requires
            self.wf(),
        ensures
            match r {
                Some(m) => self.material_names_view().contains_key(name@) && map_lookup(
                    self.materials_view(),
                    self.material_names_view()[name@],
                ) == Some(*m),
                None => !self.material_names_view().contains_key(name@) || !self.materials_view().contains_key(
                    self.material_names_view()[name@],
                ),
            },
    {
        match self.material_names.get(name) {
            Some(id) => self.materials.get(id),
            None => None,
        }
    }

    /// The summed byte size of every live buffer.
    pub open spec fn total_size(&self) -> nat {
        sizes_total(self.buffer_order(), self.buffers_view())
    }

    /// The summed byte size of every live buffer (which must fit in `usize`).
    pub fn total_buffer_memory(&self) -> (r: usize)
        requires
            self.wf(),
            self.total_size() <= usize::MAX,
        ensures
            r == self.total_size(),
    {
        let n = self.buffers.len();
        let mut total: usize = 0;
        let mut i: usize = 0;
        proof {
            assert(self.buffer_order().take(0) =~= Seq::<u32>::empty());
        }
        while i < n
            invariant
                self.wf(),
                n == self.buffer_order().len(),
                i <= n,
                self.total_size() <= usize::MAX,
                total == sizes_total(self.buffer_order().take(i as int), self.buffers_view()),
            decreases n - i,
        {
            let (k, res) = self.buffers.entry_at(i);
            proof {
                let t = self.buffer_order().take(i as int + 1);
                assert(t.drop_last() =~= self.buffer_order().take(i as int));
                assert(t.last() == k);
                lemma_sizes_prefix(self.buffer_order(), self.buffers_view(), i as int + 1);
            }
            total = total + res.size;
            i = i + 1;
        }
        proof {
            assert(self.buffer_order().take(n as int) =~= self.buffer_order());
        }
        total
    }

    pub fn buffer_count(&self) -> (r: usize)
        requires
            self.wf(),
        ensures
            r == self.buffer_order().len(),
    {
        self.buffers.len()
    }

    pub fn buffer_count_by_type(&self, buffer_type: BufferType) -> (r: usize)
        requires
            self.wf(),
        ensures
            r == self.buffers_of_type(buffer_type).len(),
    {
        self.get_buffers_by_type(buffer_type).len()
    }

    pub fn register_buffer_layout(
        &mut self,
        layout: VertexLayout,
        buffer_type: BufferType,
        step_mode: StepMode,
        name: Option<String>,
    ) -> (id: BufferLayoutId)
        requires
            old(self).wf(),
            old(self).next_layout_id() < INVALID_ID,
        ensures
            final(self).wf(),
            id.0 == old(self).next_layout_id(),
            id.0 != INVALID_ID,
            final(self).next_layout_id() == old(self).next_layout_id() + 1,
            final(self).layouts_view().dom() == old(self).layouts_view().dom().insert(id.0),
            final(self).layouts_view()[id.0].layout == layout,
            final(self).layouts_view()[id.0].buffer_type == buffer_type,
            final(self).layouts_view()[id.0].step_mode == step_mode,
            final(self).layouts_view()[id.0].label == name,
            forall|k: u32| k != id.0 ==> #[trigger] map_lookup(final(self).layouts_view(), k) == map_lookup(old(self).layouts_view(), k),
            final(self).layout_names_view() == match name {
                Some(n) => old(self).layout_names_view().insert(n@, id.0),
                None => old(self).layout_names_view(),
            },
            final(self).meshes_view() == old(self).meshes_view(),
            final(self).materials_view() == old(self).materials_view(),
            final(self).buffers_view() == old(self).buffers_view(),
            final(self).buffer_order() == old(self).buffer_order(),
            final(self).instance_view() == old(self).instance_view(),
            final(self).next_buffer_id() == old(self).next_buffer_id(),
            final(self).next_mesh_id() == old(self).next_mesh_id(),
            final(self).next_material_id() == old(self).next_material_id(),
    {
        let id = BufferLayoutId(self.next_buffer_layout_id);
        self.next_buffer_layout_id = self.next_buffer_layout_id + 1;
        let label = match &name {
            Some(n) => Some(n.clone()),
            None => None,
        };
        match name {
            Some(n) => self.buffer_layout_names.insert(n, id.0),
            None => {},
        }
        self.buffer_layouts.insert_new(id.0, BufferLayoutResource { layout, buffer_type, step_mode, label });
        proof {
            assert(final(self).layouts_view().dom() =~= old(self).layouts_view().dom().insert(id.0));
        }
        id
    }

    pub fn get_buffer_layout(&self, id: BufferLayoutId) -> (r: Option<&BufferLayoutResource>)
        requires
            self.wf(),
        ensures
            match r {
                Some(l) => map_lookup(self.layouts_view(), id.0) == Some(*l),
                None => map_lookup(self.layouts_view(), id.0) == None::<BufferLayoutResource>,
            },
    {
        self.buffer_layouts.get(id.0)
    }

    pub fn get_buffer_layout_by_name(&self, name: &str) -> (r: Option<&BufferLayoutResource>)
        requires
            self.wf(),
        ensures
            match r {
                Some(l) => self.layout_names_view().contains_key(name@) && map_lookup(
                    self.layouts_view(),
                    self.layout_names_view()[name@],
                ) == Some(*l),
                None => !self.layout_names_view().contains_key(name@) || !self.layouts_view().contains_key(
                    self.layout_names_view()[name@],
                ),
            },
    {
        match self.buffer_layout_names.get(name) {
            Some(id) => self.buffer_layouts.get(id),
            None => None,
        }
    }

    /// Registers the layouts every renderer relies on: the per-instance
    /// transform layout, under the name "instance".
    pub fn init_standard_layouts(&mut self) -> (id: BufferLayoutId)
        requires
            old(self).wf(),
            old(self).next_layout_id() < INVALID_ID,
        ensures
            final(self).wf(),
            id.0 == old(self).next_layout_id(),
            final(self).layout_names_view() == old(self).layout_names_view().insert(seq!['i', 'n', 's', 't', 'a', 'n', 'c', 'e'], id.0),
            final(self).layouts_view().contains_key(id.0),
            final(self).layouts_view()[id.0].layout@ == (INSTANCE_DATA_SIZE, StepMode::Instance, instance_attributes()),
            final(self).layouts_view()[id.0].buffer_type == BufferType::Instance,
            final(self).layouts_view()[id.0].step_mode == StepMode::Instance,
            final(self).meshes_view() == old(self).meshes_view(),
            final(self).materials_view() == old(self).materials_view(),
            final(self).buffers_view() == old(self).buffers_view(),
            final(self).buffer_order() == old(self).buffer_order(),
            final(self).instance_view() == old(self).instance_view(),
            final(self).next_buffer_id() == old(self).next_buffer_id(),
            final(self).next_mesh_id() == old(self).next_mesh_id(),
            final(self).next_material_id() == old(self).next_material_id(),
    {
        self.create_instance_buffer_layout()
    }

    fn create_instance_buffer_layout(&mut self) -> (id: BufferLayoutId)
        requires
            old(self).wf(),
            old(self).next_layout_id() < INVALID_ID,
        ensures
            final(self).wf(),
            id.0 == old(self).next_layout_id(),
            final(self).layout_names_view() == old(self).layout_names_view().insert(seq!['i', 'n', 's', 't', 'a', 'n', 'c', 'e'], id.0),
            final(self).layouts_view().contains_key(id.0),
            final(self).layouts_view()[id.0].layout@ == (INSTANCE_DATA_SIZE, StepMode::Instance, instance_attributes()),
            final(self).layouts_view()[id.0].buffer_type == BufferType::Instance,
            final(self).layouts_view()[id.0].step_mode == StepMode::Instance,
            final(self).meshes_view() == old(self).meshes_view(),
            final(self).materials_view() == old(self).materials_view(),
            final(self).buffers_view() == old(self).buffers_view(),
            final(self).buffer_order() == old(self).buffer_order(),
            final(self).instance_view() == old(self).instance_view(),
            final(self).next_buffer_id() == old(self).next_buffer_id(),
            final(self).next_mesh_id() == old(self).next_mesh_id(),
            final(self).next_material_id() == old(self).next_material_id(),
    {
        let layout = instance_buffer_layout();
        let name = "instance".to_owned();
        proof {
            reveal_strlit("instance");
            assert(name@ =~= seq!['i', 'n', 's', 't', 'a', 'n', 'c', 'e']);
        }
        self.register_buffer_layout(layout, BufferType::Instance, StepMode::Instance, Some(name))
    }

    /// The instance buffer recorded for `entity`, if any.
    pub fn get_instance_buffer_id(&self, entity: Entity) -> (r: Option<BufferId>)
        requires
            self.wf(),
        ensures
            match r {
                Some(id) => self.instance_view().contains_key(entity.0) && self.instance_view()[entity.0] == id,
                None => !self.instance_view().contains_key(entity.0),
            },
    {
        match self.instance_buffers.get(&entity.0) {
            Some(id) => Some(*id),
            None => None,
        }
    }

    /// Forgets `entity`'s instance buffer and removes that buffer.
    pub fn remove_instance_buffer(&mut self, entity: Entity) -> (r: Option<BufferId>)
        requires
            old(self).wf(),
        ensures
            final(self).wf(),
            match r {
                Some(id) => old(self).instance_view().contains_key(entity.0) && old(self).instance_view()[entity.0] == id
                    && final(self).buffers_view() == old(self).buffers_view().remove(id.0),
                None => !old(self).instance_view().contains_key(entity.0) && final(self).buffers_view()
                    == old(self).buffers_view(),
            },
            final(self).instance_view() == old(self).instance_view().remove(entity.0),
            final(self).buffer_order().len() == old(self).buffer_order().len() - match r {
                Some(id) => if old(self).buffers_view().contains_key(id.0) { 1int } else { 0int },
                None => 0int,
            },
            final(self).next_buffer_id() == old(self).next_buffer_id(),
            final(self).meshes_view() == old(self).meshes_view(),
            final(self).materials_view() == old(self).materials_view(),
            final(self).layouts_view() == old(self).layouts_view(),
    {
        match self.instance_buffers.remove(&entity.0) {
            Some(id) => {
                self.remove_buffer(id);
                Some(id)
            },
            None => {
                proof {
                    assert(self.instance_buffers@ =~= old(self).instance_buffers@.remove(entity.0));
                }
                None
            },
        }
    }

    fn create_instance_buffer<F: FnOnce() -> B>(&mut self, entity: Entity, data: &[u8], allocate: F) -> (id: BufferId)
        requires
            old(self).wf(),
            old(self).next_buffer_id() < INVALID_ID,
            allocate.requires(()),
        ensures
            final(self).wf(),
            id.0 == old(self).next_buffer_id(),
            final(self).next_buffer_id() == old(self).next_buffer_id() + 1,
            !old(self).buffers_view().contains_key(id.0),
            final(self).buffers_view().dom() == old(self).buffers_view().dom().insert(id.0),
            final(self).buffers_view().remove(id.0) == old(self).buffers_view(),
            final(self).buffers_view()[id.0].size == data@.len(),
            final(self).buffers_view()[id.0].buffer_type == BufferType::Instance,
            final(self).buffers_view()[id.0].usage == BufferUsage::Vertex,
            final(self).buffer_order() == old(self).buffer_order().push(id.0),
            final(self).instance_view() == old(self).instance_view().insert(entity.0, id),
            final(self).meshes_view() == old(self).meshes_view(),
            final(self).materials_view() == old(self).materials_view(),
            final(self).layouts_view() == old(self).layouts_view(),
    {
        let info = BufferCreateInfo::new(BufferType::Instance, BufferUsage::Vertex, data);
        let buffer = allocate();
        let id = self.create_buffer(info, buffer);
        self.instance_buffers.insert(entity.0, id);
        proof {
            assert(final(self).buffers_view().dom() =~= old(self).buffers_view().dom().insert(id.0));
            assert(final(self).buffers_view().remove(id.0) =~= old(self).buffers_view());
        }
        id
    }

    /// Mirrors `entity`'s instance data (`data`, its bytes) into a GPU buffer.
    ///
    /// Empty data removes the entity's buffer. Otherwise a buffer of the same
    /// byte size is rewritten in place through `write`; a missing buffer, or one
    /// of another size, is replaced by a new one made by `allocate`.
    pub fn sync_instance_buffer<F: FnOnce() -> B, W: FnOnce(&B)>(
        &mut self,
        entity: Entity,
        data: &[u8],
        allocate: F,
        write: W,
    ) -> (r: Option<BufferId>)
        requires
            old(self).wf(),
            data@.len() > 0 && !old(self).sync_reuses(entity, data@.len()) ==> old(self).next_buffer_id() < INVALID_ID
                && allocate.requires(()),
            forall|b: &B| #[trigger] write.requires((b,)),
        ensures
            final(self).wf(),
            final(self).meshes_view() == old(self).meshes_view(),
            final(self).materials_view() == old(self).materials_view(),
            final(self).layouts_view() == old(self).layouts_view(),
            data@.len() == 0 ==> {
                &&& r == (if old(self).instance_view().contains_key(entity.0) {
                    Some(old(self).instance_view()[entity.0])
                } else {
                    None
                })
                &&& final(self).instance_view() == old(self).instance_view().remove(entity.0)
                &&& final(self).next_buffer_id() == old(self).next_buffer_id()
                &&& final(self).buffers_view() == match r {
                    Some(id) => old(self).buffers_view().remove(id.0),
                    None => old(self).buffers_view(),
                }
                &&& final(self).buffer_order().len() == old(self).buffer_order().len() - match r {
                    Some(id) => if old(self).buffers_view().contains_key(id.0) { 1int } else { 0int },
                    None => 0int,
                }
            },
            data@.len() > 0 ==> {
                &&& r.is_some()
                &&& final(self).instance_view() == old(self).instance_view().insert(entity.0, r.unwrap())
                &&& final(self).sync_reuses(entity, data@.len())
            },
            data@.len() > 0 && old(self).sync_reuses(entity, data@.len()) ==> {
                &&& r == Some(old(self).instance_view()[entity.0])
                &&& final(self).buffers_view() == old(self).buffers_view()
                &&& final(self).buffer_order() == old(self).buffer_order()
                &&& final(self).next_buffer_id() == old(self).next_buffer_id()
                &&& write.ensures((&old(self).buffers_view()[old(self).instance_view()[entity.0].0].buffer,), ())
            },
            data@.len() > 0 && !old(self).sync_reuses(entity, data@.len()) ==> {
                let stale = if old(self).instance_view().contains_key(entity.0) {
                    old(self).buffers_view().remove(old(self).instance_view()[entity.0].0)
                } else {
                    old(self).buffers_view()
                };
                &&& r == Some(BufferId(old(self).next_buffer_id()))
                &&& final(self).next_buffer_id() == old(self).next_buffer_id() + 1
                &&& !old(self).buffers_view().contains_key(old(self).next_buffer_id())
                &&& final(self).buffers_view().dom() == stale.dom().insert(old(self).next_buffer_id())
                &&& final(self).buffers_view().remove(old(self).next_buffer_id()) == stale
                &&& final(self).buffers_view()[old(self).next_buffer_id()].buffer_type == BufferType::Instance
                &&& final(self).buffers_view()[old(self).next_buffer_id()].usage == BufferUsage::Vertex
                &&& final(self).buffer_order().len() == old(self).buffer_order().len() + if old(
                    self,
                ).instance_view().contains_key(entity.0) && old(self).buffers_view().contains_key(
                    old(self).instance_view()[entity.0].0,
                ) {
                    0int
                } else {
                    1int
                }
            },
    {
        if data.len() == 0 {
            return self.remove_instance_buffer(entity);
        }
        let existing = match self.instance_buffers.get(&entity.0) {
            Some(id) => *id,
            None => {
                let id = self.create_instance_buffer(entity, data, allocate);
                return Some(id);
            },
        };
        let same_size = match self.buffers.get(existing.0) {
            Some(resource) => resource.size == data.len(),
            None => {
                let ghost mid = self.buffers@;
                let id = self.create_instance_buffer(entity, data, allocate);
                proof {
                    assert(mid =~= old(self).buffers_view().remove(existing.0));
                }
                return Some(id);
            },
        };
        if !same_size {
            self.remove_buffer(existing);
            let id = self.create_instance_buffer(entity, data, allocate);
            return Some(id);
        }
        match self.update_buffer(existing, data, 0, write) {
            Ok(()) => {
                proof {
                    assert(self.instance_buffers@ =~= old(self).instance_buffers@.insert(entity.0, existing));
                }
                Some(existing)
            },
            Err(_) => {
                self.remove_buffer(existing);
                let id = self.create_instance_buffer(entity, data, allocate);
                Some(id)
            },
        }
    }

    /// Drops every resource and name and restarts all id counters.
    pub fn cleanup(&mut self)
        ensures
            final(self).wf(),
            final(self).buffers_view() == Map::<u32, BufferResource<B>>::empty(),
            final(self).meshes_view() == Map::<u32, Mesh<M>>::empty(),
            final(self).materials_view() == Map::<u32, T>::empty(),
            final(self).layouts_view() == Map::<u32, BufferLayoutResource>::empty(),
            final(self).instance_view() == Map::<usize, BufferId>::empty(),
            final(self).buffer_names_view() == Map::<Seq<char>, u32>::empty(),
            final(self).mesh_names_view() == Map::<Seq<char>, u32>::empty(),
            final(self).material_names_view() == Map::<Seq<char>, u32>::empty(),
            final(self).layout_names_view() == Map::<Seq<char>, u32>::empty(),
            final(self).next_buffer_id() == 1,
            final(self).next_mesh_id() == 1,
            final(self).next_material_id() == 1,
            final(self).next_layout_id() == 1,
    {
        *self = ResourceManager::new();
    }
}

} // verus!

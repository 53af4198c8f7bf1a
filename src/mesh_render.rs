use vstd::prelude::*;

use crate::components::CameraType;
use crate::entity::Entity;
use crate::layout::{same_layouts, LayoutView, VertexLayout};
use crate::resource_manager::{BufferId, MaterialId, MeshId};
use crate::world::World;

verus! {

/// The bind group index of the environment group (index 0 belongs to materials).
pub const ENV_BIND_GROUP_INDEX: u32 = 1;

/// The binding slot of the packed light array inside the environment group.
pub const LIGHT_BINDING_INDEX: u32 = 2;

/// At most this many directional lights reach the shaders; later ones are dropped.
pub const MAX_DIRECTIONAL_LIGHTS: usize = 8;

/// At most this many ambient lights reach the shaders; later ones are dropped.
pub const MAX_AMBIENT_LIGHTS: usize = 4;

/// What an environment binding holds.
#[derive(Debug, Clone, Copy, PartialEq, Eq, Structural)]
pub enum EnvBindingKind {
    Camera,
    Lights,
}

/// One entry of the environment bind group layout.
#[derive(Debug, Clone, Copy, PartialEq, Eq, Structural)]
pub struct EnvLayoutEntry {
    pub binding: u32,
    pub kind: EnvBindingKind,
}

/// Light entities to upload, per kind, in storage order.
pub struct LightCollection {
    pub ambient_lights: Vec<Entity>,
    pub directional_lights: Vec<Entity>,
}

/// One frame's environment bind group: its group index, its layout entries,
/// the main camera bound in it, and the lights packed into it.
pub struct EnvPlan {
    pub index: u32,
    pub entries: Vec<EnvLayoutEntry>,
    pub camera: Option<(Entity, CameraType)>,
    pub lights: LightCollection,
}

/// What a pipeline is built for: a material, the vertex buffer layouts it reads
/// (the mesh's, then the instance layout if any), and the environment layout.
pub struct PipelineKey {
    pub material_id: MaterialId,
    pub vertex_layouts: Vec<VertexLayout>,
    pub env_layout: Vec<EnvLayoutEntry>,
}

/// A pipeline key as a plain value.
pub type KeyView = (u32, Seq<LayoutView>, Seq<EnvLayoutEntry>);

impl View for PipelineKey {
    type V = KeyView;

    open spec fn view(&self) -> KeyView {
        (self.material_id.0, self.vertex_layouts@.map_values(|l: VertexLayout| l@), self.env_layout@)
    }
}

fn same_env_layout(a: &Vec<EnvLayoutEntry>, b: &Vec<EnvLayoutEntry>) -> (r: bool)
    ensures
        r == (a@ == b@),
{
    if a.len() != b.len() {
        return false;
    }
    let mut i: usize = 0;
    while i < a.len()
        invariant
            a.len() == b.len(),
            i <= a.len(),
            forall|j: int| 0 <= j < i ==> a@[j] == b@[j],
        decreases a.len() - i,
    {
        if a[i] != b[i] {
            return false;
        }
        i = i + 1;
    }
    assert(a@ =~= b@);
    true
}

impl PipelineKey {
    pub fn same_as(&self, other: &PipelineKey) -> (r: bool)
        ensures
            r == (self@ == other@),
    {
        self.material_id.0 == other.material_id.0 && same_layouts(&self.vertex_layouts, &other.vertex_layouts)
            && same_env_layout(&self.env_layout, &other.env_layout)
    }
}

/// One indexed draw: which entity, its mesh and material, the instance buffer
/// bound at vertex slot 1 (if any), the index and instance counts, and the
/// slot of its pipeline in the cache.
#[derive(Debug, Clone, Copy, PartialEq, Eq, Structural)]
pub struct DrawCall {
    pub entity: Entity,
    pub mesh_id: MeshId,
    pub material_id: MaterialId,
    pub instance_buffer: Option<BufferId>,
    pub num_indices: u32,
    pub instance_count: u32,
    pub pipeline: usize,
}

/// The cache after asking for key `k`: unchanged on a hit, `k` appended on a miss.
pub open spec fn cache_after(keys: Seq<KeyView>, k: KeyView) -> Seq<KeyView> {
    if keys.contains(k) {
        keys
    } else {
        keys.push(k)
    }
}

/// Asking twice for the same key builds at most once: after the first request
/// the key is cached, and the second request leaves the cache as it is.
pub proof fn lemma_second_request_hits(keys: Seq<KeyView>, k: KeyView)
    requires
        keys.no_duplicates(),
    ensures
        cache_after(keys, k).contains(k),
        cache_after(keys, k).no_duplicates(),
        cache_after(cache_after(keys, k), k) == cache_after(keys, k),
{
    if !keys.contains(k) {
        let s = keys.push(k);
        assert(s[keys.len() as int] == k);
        assert forall|i: int, j: int| 0 <= i < s.len() && 0 <= j < s.len() && i != j implies s[i] != s[j] by {
            if i == keys.len() as int {
                assert(keys[j] == s[j]);
            } else if j == keys.len() as int {
                assert(keys[i] == s[i]);
            }
        }
    }
}

/// The cache after asking for each of `ks`, in order.
pub open spec fn cache_after_all(keys: Seq<KeyView>, ks: Seq<KeyView>) -> Seq<KeyView>
    decreases ks.len(),
{
    if ks.len() == 0 {
        keys
    } else {
        cache_after(cache_after_all(keys, ks.drop_last()), ks.last())
    }
}

/// Asking for keys that are all cached already builds nothing: the cache stays
/// as it is. Each key asked for ends up cached, and no key is cached twice.
pub proof fn lemma_cache_after_all(keys: Seq<KeyView>, ks: Seq<KeyView>)
    requires
        keys.no_duplicates(),
    ensures
        cache_after_all(keys, ks).no_duplicates(),
        forall|i: int| 0 <= i < ks.len() ==> cache_after_all(keys, ks).contains(#[trigger] ks[i]),
        (forall|i: int| 0 <= i < ks.len() ==> keys.contains(#[trigger] ks[i])) ==> cache_after_all(keys, ks)
            == keys,
    decreases ks.len(),
{
    if ks.len() > 0 {
        let prev = ks.drop_last();
        lemma_cache_after_all(keys, prev);
        let c = cache_after_all(keys, prev);
        lemma_second_request_hits(c, ks.last());
        assert forall|i: int| 0 <= i < ks.len() implies cache_after_all(keys, ks).contains(#[trigger] ks[i]) by {
            if i < ks.len() - 1 {
                assert(prev[i] == ks[i]);
                let j = choose|j: int| 0 <= j < c.len() && c[j] == ks[i];
                assert(cache_after(c, ks.last())[j] == ks[i]);
            }
        }
        if forall|i: int| 0 <= i < ks.len() ==> keys.contains(#[trigger] ks[i]) {
            assert forall|i: int| 0 <= i < prev.len() implies keys.contains(#[trigger] prev[i]) by {
                assert(prev[i] == ks[i]);
            }
            assert(keys.contains(ks[ks.len() - 1]));
        }
    }
}

/// The name under which the per-instance layout is registered.
pub open spec fn instance_layout_name() -> Seq<char> {
    seq!['i', 'n', 's', 't', 'a', 'n', 'c', 'e']
}

/// `e` is drawn: it has a mesh renderer whose mesh and material both exist.
pub open spec fn draw_target<B, M, T, D, C, L>(w: World<B, M, T, D, C, L>, e: Entity) -> bool {
    match w.mesh_renderers.lookup(e) {
        Some(mr) => w.resource_manager.meshes_view().contains_key(mr.mesh_id.0)
            && w.resource_manager.materials_view().contains_key(mr.material_id.0),
        None => false,
    }
}

/// The drawn entities among `es`, order kept.
pub open spec fn draw_targets<B, M, T, D, C, L>(w: World<B, M, T, D, C, L>, es: Seq<Entity>) -> Seq<Entity>
    decreases es.len(),
{
    if es.len() == 0 {
        es
    } else {
        let rest = draw_targets(w, es.drop_last());
        if draw_target(w, es.last()) {
            rest.push(es.last())
        } else {
            rest
        }
    }
}

/// `e` has non-empty instance data and an instance buffer on record.
pub open spec fn uses_instances<B, M, T, D, C, L>(w: World<B, M, T, D, C, L>, e: Entity) -> bool {
    match w.instances.lookup(e) {
        Some(inst) => inst.data@.len() > 0 && w.resource_manager.instance_view().contains_key(e.0),
        None => false,
    }
}

/// The registered per-instance layout, if there is one.
pub open spec fn instance_layout<B, M, T, D, C, L>(w: World<B, M, T, D, C, L>) -> Option<LayoutView> {
    let names = w.resource_manager.layout_names_view();
    if names.contains_key(instance_layout_name()) && w.resource_manager.layouts_view().contains_key(
        names[instance_layout_name()],
    ) {
        Some(w.resource_manager.layouts_view()[names[instance_layout_name()]].layout@)
    } else {
        None
    }
}

/// The pipeline key of drawn entity `e`.
pub open spec fn frame_key<B, M, T, D, C, L>(w: World<B, M, T, D, C, L>, e: Entity, env: Seq<EnvLayoutEntry>) -> KeyView {
    let mr = w.mesh_renderers.lookup(e).unwrap();
    let mesh = w.resource_manager.meshes_view()[mr.mesh_id.0];
    let layouts = if uses_instances(w, e) && instance_layout(w).is_some() {
        seq![mesh.layout@, instance_layout(w).unwrap()]
    } else {
        seq![mesh.layout@]
    };
    (mr.material_id.0, layouts, env)
}

/// The instance buffer bound for `e`, when its instance data is non-empty and
/// the buffer on record still exists.
pub open spec fn frame_instance_buffer<B, M, T, D, C, L>(w: World<B, M, T, D, C, L>, e: Entity) -> Option<BufferId> {
    if uses_instances(w, e) && w.resource_manager.buffers_view().contains_key(
        w.resource_manager.instance_view()[e.0].0,
    ) {
        Some(w.resource_manager.instance_view()[e.0])
    } else {
        None
    }
}

/// The instance count of `e`'s draw: its number of instance records when an
/// instance buffer is bound, else one.
pub open spec fn frame_instance_count<B, M, T, D, C, L>(w: World<B, M, T, D, C, L>, e: Entity) -> u32 {
    if frame_instance_buffer(w, e).is_some() {
        w.instances.lookup(e).unwrap().data@.len() as u32
    } else {
        1
    }
}

/// The pipeline keys of the drawn entities `ts`, in order.
pub open spec fn frame_keys<B, M, T, D, C, L>(w: World<B, M, T, D, C, L>, ts: Seq<Entity>, env: Seq<EnvLayoutEntry>) -> Seq<KeyView> {
    ts.map_values(|e: Entity| frame_key(w, e, env))
}

/// `d` is the draw of entity `e`, with its pipeline at slot `d.pipeline` of `keys`.
pub open spec fn is_frame_draw<B, M, T, D, C, L>(
    w: World<B, M, T, D, C, L>,
    e: Entity,
    env: Seq<EnvLayoutEntry>,
    keys: Seq<KeyView>,
    d: DrawCall,
) -> bool {
    let mr = w.mesh_renderers.lookup(e).unwrap();
    &&& d.entity == e
    &&& d.mesh_id == mr.mesh_id
    &&& d.material_id == mr.material_id
    &&& d.num_indices == w.resource_manager.meshes_view()[mr.mesh_id.0].num_indices
    &&& d.instance_buffer == frame_instance_buffer(w, e)
    &&& d.instance_count == frame_instance_count(w, e)
    &&& d.pipeline < keys.len()
    &&& keys[d.pipeline as int] == frame_key(w, e, env)
}

/// Whether `choice` names the main camera: the first flagged perspective camera
/// in storage order, else the first flagged orthographic one, else none.
pub open spec fn main_camera_choice<B, M, T, D, C, L>(w: World<B, M, T, D, C, L>, choice: Option<(Entity, CameraType)>) -> bool {
    match choice {
        Some((e, kind)) => {
            &&& w.is_main_camera(kind, e)
            &&& kind == CameraType::Orthographic ==> forall|x: Entity| !w.is_main_camera(CameraType::Perspective, x)
            &&& forall|j: int|
                0 <= j < w.cameras(kind).entity_seq().index_of(e)
                    ==> !(#[trigger] w.cameras(kind).component_seq()[j]).camera_data.is_main
        },
        None => forall|kind: CameraType, x: Entity| !w.is_main_camera(kind, x),
    }
}

/// The first `n` entities of `s`, or all of them if there are fewer.
pub open spec fn capped(s: Seq<Entity>, n: nat) -> Seq<Entity> {
    if s.len() <= n {
        s
    } else {
        s.take(n as int)
    }
}

fn first_entities(es: &[Entity], cap: usize) -> (r: Vec<Entity>)
    ensures
        r@ == capped(es@, cap as nat),
{
    let mut out: Vec<Entity> = Vec::new();
    let mut i: usize = 0;
    while i < es.len() && i < cap
        invariant
            i <= es@.len(),
            i <= cap,
            out@ == es@.take(i as int),
        decreases es@.len() - i,
    {
        out.push(es[i]);
        i = i + 1;
        assert(out@ =~= es@.take(i as int));
    }
    assert(out@ =~= capped(es@, cap as nat));
    out
}

/// The light entities of each kind, all of them, in storage order.
pub fn get_all_lights<B, M, T, D, C, L>(world: &World<B, M, T, D, C, L>) -> (r: LightCollection)
    ensures
        r.ambient_lights@ == world.ambient_lights.entity_seq(),
        r.directional_lights@ == world.directional_lights.entity_seq(),
{
    LightCollection {
        ambient_lights: world.ambient_lights.get_entities(),
        directional_lights: world.directional_lights.get_entities(),
    }
}

/// The lights that reach the shaders: the first `MAX_DIRECTIONAL_LIGHTS`
/// directional and the first `MAX_AMBIENT_LIGHTS` ambient lights in storage
/// order; the rest are dropped.
pub fn collect_light_bindings<B, M, T, D, C, L>(world: &World<B, M, T, D, C, L>) -> (r: LightCollection)
    ensures
        r.directional_lights@ == capped(world.directional_lights.entity_seq(), MAX_DIRECTIONAL_LIGHTS as nat),
        r.ambient_lights@ == capped(world.ambient_lights.entity_seq(), MAX_AMBIENT_LIGHTS as nat),
{
    LightCollection {
        directional_lights: first_entities(world.directional_lights.entities(), MAX_DIRECTIONAL_LIGHTS),
        ambient_lights: first_entities(world.ambient_lights.entities(), MAX_AMBIENT_LIGHTS),
    }
}

/// The environment group of one frame: bound at `ENV_BIND_GROUP_INDEX`, with
/// the main camera's uniform at that camera's bind index (when there is a main
/// camera), then the packed lights at `LIGHT_BINDING_INDEX`.
pub fn plan_environment<B, M, T, D, C, L>(world: &World<B, M, T, D, C, L>) -> (r: EnvPlan)
    requires
        world.wf(),
    ensures
        r.index == ENV_BIND_GROUP_INDEX,
        main_camera_choice(*world, r.camera),
        r.entries@ == match r.camera {
            Some((e, kind)) => seq![
                EnvLayoutEntry {
                    binding: world.cameras(kind).lookup(e).unwrap().camera_data.bind_index,
                    kind: EnvBindingKind::Camera,
                },
                EnvLayoutEntry { binding: LIGHT_BINDING_INDEX, kind: EnvBindingKind::Lights },
            ],
            None => seq![EnvLayoutEntry { binding: LIGHT_BINDING_INDEX, kind: EnvBindingKind::Lights }],
        },
        r.lights.directional_lights@ == capped(world.directional_lights.entity_seq(), MAX_DIRECTIONAL_LIGHTS as nat),
        r.lights.ambient_lights@ == capped(world.ambient_lights.entity_seq(), MAX_AMBIENT_LIGHTS as nat),
{
    let camera = world.get_main_camera_entity();
    let mut entries: Vec<EnvLayoutEntry> = Vec::new();
    match camera {
        Some((e, kind)) => {
            let storage = match kind {
                CameraType::Perspective => &world.perspective_cameras,
                CameraType::Orthographic => &world.orthographic_cameras,
            };
            match storage.get(e) {
                Some(c) => {
                    entries.push(EnvLayoutEntry { binding: c.camera_data.bind_index, kind: EnvBindingKind::Camera });
                },
                None => {},
            }
        },
        None => {},
    }
    entries.push(EnvLayoutEntry { binding: LIGHT_BINDING_INDEX, kind: EnvBindingKind::Lights });
    proof {
        match camera {
            Some((e, kind)) => {
                assert(entries@ =~= seq![
                    EnvLayoutEntry {
                        binding: world.cameras(kind).lookup(e).unwrap().camera_data.bind_index,
                        kind: EnvBindingKind::Camera,
                    },
                    EnvLayoutEntry { binding: LIGHT_BINDING_INDEX, kind: EnvBindingKind::Lights },
                ]);
            },
            None => {
                assert(entries@ =~= seq![EnvLayoutEntry { binding: LIGHT_BINDING_INDEX, kind: EnvBindingKind::Lights }]);
            },
        }
    }
    EnvPlan { index: ENV_BIND_GROUP_INDEX, entries, camera, lights: collect_light_bindings(world) }
}

/// Builds pipelines on demand and caches them by key; entries are never evicted.
pub struct MeshRender<P> {
    keys: Vec<PipelineKey>,
    pipelines: Vec<P>,
}

impl<P> MeshRender<P> {
    /// The cached keys, in the order their pipelines were built.
    pub closed spec fn cache_keys(&self) -> Seq<KeyView> {
        self.keys@.map_values(|k: PipelineKey| k@)
    }

    /// The cached pipelines, parallel to `cache_keys`.
    pub closed spec fn cached_pipelines(&self) -> Seq<P> {
        self.pipelines@
    }

    pub closed spec fn wf(&self) -> bool {
        &&& self.keys.len() == self.pipelines.len()
        &&& self.cache_keys().no_duplicates()
    }

    /// No key is cached twice.
    pub proof fn lemma_keys_distinct(&self)
        requires
            self.wf(),
        ensures
            self.cache_keys().no_duplicates(),
    {
    }

    pub fn new() -> (r: Self)
        ensures
            r.wf(),
            r.cache_keys() == Seq::<KeyView>::empty(),
            r.cached_pipelines() == Seq::<P>::empty(),
    {
        let r = MeshRender { keys: Vec::new(), pipelines: Vec::new() };
        assert(r.cache_keys() =~= Seq::<KeyView>::empty());
        r
    }

    pub fn pipeline_count(&self) -> (r: usize)
        requires
            self.wf(),
        ensures
            r == self.cache_keys().len(),
    {
        self.keys.len()
    }

    pub fn get_pipeline(&self, i: usize) -> (r: &P)
        requires
            self.wf(),
            i < self.cache_keys().len(),
        ensures
            *r == self.cached_pipelines()[i as int],
    {
        &self.pipelines[i]
    }

    /// The slot of the pipeline cached for `key`, if any.
    pub fn find_pipeline(&self, key: &PipelineKey) -> (r: Option<usize>)
        requires
            self.wf(),
        ensures
            match r {
                Some(i) => i < self.cache_keys().len() && self.cache_keys()[i as int] == key@
                    && self.cache_keys().index_of(key@) == i,
                None => !self.cache_keys().contains(key@),
            },
    {
        let mut i: usize = 0;
        while i < self.keys.len()
            invariant
                self.wf(),
                i <= self.keys.len(),
                forall|j: int| 0 <= j < i ==> self.cache_keys()[j] != key@,
            decreases self.keys.len() - i,
        {
            if self.keys[i].same_as(key) {
                proof {
                    assert(self.cache_keys()[i as int] == key@);
                    assert(self.cache_keys().contains(key@));
                    let j = self.cache_keys().index_of(key@);
                    if j != i as int {
                        assert(self.cache_keys()[j] == self.cache_keys()[i as int]);
                    }
                }
                return Some(i);
            }
            i = i + 1;
        }
        None
    }

    /// The slot of the pipeline for `key`; on a miss `build` makes it and it is
    /// cached. On a hit nothing is built and the cache is unchanged.
    pub fn get_or_create_pipeline<F: Fn(&PipelineKey) -> P>(&mut self, key: PipelineKey, build: &F) -> (r: usize)
        requires
            old(self).wf(),
            forall|k: &PipelineKey| #[trigger] build.requires((k,)),
        ensures
            final(self).wf(),
            final(self).cache_keys() == cache_after(old(self).cache_keys(), key@),
            r < final(self).cache_keys().len(),
            final(self).cache_keys()[r as int] == key@,
            old(self).cache_keys().contains(key@) ==> r == old(self).cache_keys().index_of(key@)
                && final(self).cached_pipelines() == old(self).cached_pipelines(),
            !old(self).cache_keys().contains(key@) ==> r == old(self).cache_keys().len()
                && final(self).cached_pipelines().drop_last() == old(self).cached_pipelines()
                && final(self).cached_pipelines().len() == old(self).cached_pipelines().len() + 1,
    {
        match self.find_pipeline(&key) {
            Some(i) => i,
            None => {
                let pipeline = build(&key);
                let ghost k = key@;
                self.keys.push(key);
                self.pipelines.push(pipeline);
                proof {
                    assert(self.cache_keys() =~= old(self).cache_keys().push(k));
                    lemma_second_request_hits(old(self).cache_keys(), k);
                    assert(self.pipelines@.drop_last() =~= old(self).pipelines@);
                }
                self.keys.len() - 1
            },
        }
    }

    /// Plans one frame. First pass: for every entity with a mesh renderer whose
    /// mesh and material exist, resolve its pipeline through the cache (building
    /// missing ones with `build`). Second pass: one draw per such entity, in
    /// mesh-renderer storage order. Other entities are skipped.
    pub fn prepare_frame<B, M, T, D, C, L, F: Fn(&PipelineKey) -> P>(
        &mut self,
        world: &World<B, M, T, D, C, L>,
        env: &EnvPlan,
        build: &F,
    ) -> (r: Vec<DrawCall>)
        requires
            old(self).wf(),
            world.wf(),
            forall|k: &PipelineKey| #[trigger] build.requires((k,)),
        ensures
            final(self).wf(),
            old(self).cache_keys().len() <= final(self).cache_keys().len(),
            final(self).cache_keys().subrange(0, old(self).cache_keys().len() as int) == old(self).cache_keys(),
            final(self).cached_pipelines().subrange(0, old(self).cached_pipelines().len() as int)
                == old(self).cached_pipelines(),
            final(self).cache_keys() == cache_after_all(
                old(self).cache_keys(),
                frame_keys(*world, draw_targets(*world, world.mesh_renderers.entity_seq()), env.entries@),
            ),
            final(self).cached_pipelines().len() == final(self).cache_keys().len(),
            r.len() == draw_targets(*world, world.mesh_renderers.entity_seq()).len(),
            forall|i: int|
                0 <= i < r.len() ==> is_frame_draw(
                    *world,
                    draw_targets(*world, world.mesh_renderers.entity_seq())[i],
                    env.entries@,
                    final(self).cache_keys(),
                    #[trigger] r@[i],
                ),
    {
        let entities = world.mesh_renderers.entities();
        let rm = &world.resource_manager;
        let ghost es = world.mesh_renderers.entity_seq();
        let ghost k0 = self.cache_keys();
        let ghost pipes_before = self.cached_pipelines();
        let mut resolved: Vec<(Entity, usize)> = Vec::new();
        let mut i: usize = 0;
        proof {
            world.mesh_renderers.lemma_valid();
            reveal_strlit("instance");
        }
        while i < entities.len()
            invariant
                self.wf(),
                world.wf(),
                forall|k: &PipelineKey| #[trigger] build.requires((k,)),
                entities@ == es,
                es == world.mesh_renderers.entity_seq(),
                *rm == world.resource_manager,
                i <= es.len(),
                k0.len() <= self.cache_keys().len(),
                self.cache_keys().subrange(0, k0.len() as int) == k0,
                self.cached_pipelines().subrange(0, pipes_before.len() as int) == pipes_before,
                pipes_before.len() == k0.len(),
                self.cache_keys() == cache_after_all(k0, frame_keys(*world, draw_targets(*world, es.take(i as int)), env.entries@)),
                resolved@.len() == draw_targets(*world, es.take(i as int)).len(),
                forall|j: int|
                    0 <= j < resolved@.len() ==> {
                        &&& (#[trigger] resolved@[j]).0 == draw_targets(*world, es.take(i as int))[j]
                        &&& resolved@[j].1 < self.cache_keys().len()
                        &&& self.cache_keys()[resolved@[j].1 as int] == frame_key(*world, resolved@[j].0, env.entries@)
                    },
            decreases es.len() - i,
        {
            let e = entities[i];
            let ghost keys_before = self.cache_keys();
            let ghost s0 = es.take(i as int);
            let ghost s1 = es.take(i as int + 1);
            proof {
                assert(s1.drop_last() =~= s0);
                assert(s1.last() == e);
            }
            let mut included = false;
            match world.mesh_renderers.get(e) {
                Some(mr) => {
                    match (rm.get_mesh(mr.mesh_id), rm.get_material(mr.material_id)) {
                        (Some(mesh), Some(_material)) => {
                            let mut layouts: Vec<VertexLayout> = Vec::new();
                            layouts.push(mesh.get_buffer_layout());
                            let with_instances = match world.instances.get(e) {
                                Some(inst) => !inst.is_empty() && rm.get_instance_buffer_id(e).is_some(),
                                None => false,
                            };
                            if with_instances {
                                match rm.get_buffer_layout_by_name("instance") {
                                    Some(l) => {
                                        proof {
                                            reveal_strlit("instance");
                                            assert("instance"@ =~= instance_layout_name());
                                        }
                                        layouts.push(l.layout.duplicate());
                                    },
                                    None => {
                                        proof {
                                            reveal_strlit("instance");
                                            assert("instance"@ =~= instance_layout_name());
                                        }
                                    },
                                }
                            }
                            let key = PipelineKey {
                                material_id: mr.material_id,
                                vertex_layouts: layouts,
                                env_layout: env.entries.clone(),
                            };
                            proof {
                                assert(key@ =~= frame_key(*world, e, env.entries@)) by {
                                    assert(key.vertex_layouts@.map_values(|l: VertexLayout| l@) =~= frame_key(*world, e, env.entries@).1);
                                }
                            }
                            let ghost before = self.cache_keys();
                            let ghost before_p = self.cached_pipelines();
                            let slot = self.get_or_create_pipeline(key, build);
                            proof {
                                assert(self.cache_keys().subrange(0, before.len() as int) =~= before);
                                assert(self.cache_keys().subrange(0, k0.len() as int) =~= k0) by {
                                    assert(before.subrange(0, k0.len() as int) == k0);
                                }
                                assert(self.cached_pipelines().subrange(0, pipes_before.len() as int) =~= pipes_before) by {
                                    assert(before_p.subrange(0, pipes_before.len() as int) == pipes_before);
                                    if !before.contains(frame_key(*world, e, env.entries@)) {
                                        assert(self.cached_pipelines().drop_last() == before_p);
                                    }
                                }
                            }
                            resolved.push((e, slot));
                            included = true;
                        },
                        _ => {},
                    }
                },
                None => {},
            }
            proof {
                if included {
                    assert(draw_target(*world, e));
                    assert(draw_targets(*world, s1) == draw_targets(*world, s0).push(e));
                    let f0 = frame_keys(*world, draw_targets(*world, s0), env.entries@);
                    let f1 = frame_keys(*world, draw_targets(*world, s1), env.entries@);
                    assert(f1 =~= f0.push(frame_key(*world, e, env.entries@)));
                    assert(f1.drop_last() =~= f0);
                    assert(self.cache_keys() == cache_after(keys_before, frame_key(*world, e, env.entries@)));
                } else {
                    assert(!draw_target(*world, e));
                    assert(draw_targets(*world, s1) == draw_targets(*world, s0));
                }
            }
            i = i + 1;
        }
        proof {
            assert(es.take(es.len() as int) =~= es);
        }
        let mut draws: Vec<DrawCall> = Vec::new();
        let mut j: usize = 0;
        while j < resolved.len()
            invariant
                self.wf(),
                world.wf(),
                *rm == world.resource_manager,
                es == world.mesh_renderers.entity_seq(),
                resolved@.len() == draw_targets(*world, es).len(),
                forall|t: int|
                    0 <= t < resolved@.len() ==> {
                        &&& (#[trigger] resolved@[t]).0 == draw_targets(*world, es)[t]
                        &&& resolved@[t].1 < self.cache_keys().len()
                        &&& self.cache_keys()[resolved@[t].1 as int] == frame_key(*world, resolved@[t].0, env.entries@)
                    },
                j <= resolved.len(),
                draws@.len() == j,
                forall|t: int|
                    0 <= t < j ==> is_frame_draw(
                        *world,
                        draw_targets(*world, es)[t],
                        env.entries@,
                        self.cache_keys(),
                        #[trigger] draws@[t],
                    ),
            decreases resolved.len() - j,
        {
            let (e, slot) = resolved[j];
            proof {
                assert(resolved@[j as int].0 == draw_targets(*world, es)[j as int]);
                lemma_draw_targets_are_targets(*world, es, j as int);
            }
            match world.mesh_renderers.get(e) {
                Some(mr) => {
                    match rm.get_mesh(mr.mesh_id) {
                        Some(mesh) => {
                            let mut instance_buffer: Option<BufferId> = None;
                            let mut instance_count: u32 = 1;
                            match world.instances.get(e) {
                                Some(inst) => {
                                    if !inst.is_empty() {
                                        match rm.get_instance_buffer_id(e) {
                                            Some(id) => {
                                                if rm.get_buffer(id).is_some() {
                                                    instance_buffer = Some(id);
                                                    instance_count = #[verifier::truncate] (inst.count() as u32);
                                                }
                                            },
                                            None => {},
                                        }
                                    }
                                },
                                None => {},
                            }
                            draws.push(DrawCall {
                                entity: e,
                                mesh_id: mr.mesh_id,
                                material_id: mr.material_id,
                                instance_buffer,
                                num_indices: mesh.num_indices,
                                instance_count,
                                pipeline: slot,
                            });
                        },
                        None => {},
                    }
                },
                None => {},
            }
            j = j + 1;
        }
        draws
    }
}

/// Every entity listed by `draw_targets` is drawn.
pub proof fn lemma_draw_targets_are_targets<B, M, T, D, C, L>(w: World<B, M, T, D, C, L>, es: Seq<Entity>, i: int)
    requires
        0 <= i < draw_targets(w, es).len(),
    ensures
        draw_target(w, draw_targets(w, es)[i]),
    decreases es.len(),
{
    if es.len() > 0 {
        let rest = draw_targets(w, es.drop_last());
        if i < rest.len() {
            lemma_draw_targets_are_targets(w, es.drop_last(), i);
        }
    }
}

} // verus!

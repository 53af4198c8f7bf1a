use vstd::prelude::*;

use crate::component_storage::{storage_remove, ComponentStorage};
use crate::components::{Camera, CameraData, CameraType, Instance, Light, MeshRenderer};
use crate::entity::{Entity, EntityRegistry};
use crate::hierarchy::Hierarchy;
use crate::resource_manager::ResourceManager;

verus! {

/// `s` with every occurrence of `e` taken out, order kept.
pub open spec fn without(s: Seq<Entity>, e: Entity) -> Seq<Entity>
    decreases s.len(),
{
    if s.len() == 0 {
        s
    } else {
        let rest = without(s.drop_last(), e);
        if s.last() == e {
            rest
        } else {
            rest.push(s.last())
        }
    }
}

/// Whether `e` holds a camera in `s` that is flagged main.
pub open spec fn camera_is_main<C>(s: ComponentStorage<Camera<C>>, e: Entity) -> bool {
    match s.lookup(e) {
        Some(c) => c.camera_data.is_main,
        None => false,
    }
}

/// Every entity in `s` has an id below `next`.
pub open spec fn issued_below(s: Seq<Entity>, next: nat) -> bool {
    forall|i: int| 0 <= i < s.len() ==> (#[trigger] s[i]).0 < next
}

proof fn lemma_issued_remove<T>(es: Seq<Entity>, cs: Seq<T>, e: Entity, next: nat)
    requires
        issued_below(es, next),
    ensures
        issued_below(storage_remove(es, cs, e).0, next),
{
    if es.contains(e) {
        let i = es.index_of(e);
        let r = storage_remove(es, cs, e).0;
        assert forall|j: int| 0 <= j < r.len() implies (#[trigger] r[j]).0 < next by {
            if j == i {
                assert(r[j] == es[es.len() - 1]);
            } else {
                assert(r[j] == es[j]);
            }
        }
    }
}

proof fn lemma_issued_without(s: Seq<Entity>, e: Entity, next: nat)
    requires
        issued_below(s, next),
    ensures
        issued_below(without(s, e), next),
    decreases s.len(),
{
    if s.len() > 0 {
        let prev = s.drop_last();
        assert forall|j: int| 0 <= j < prev.len() implies (#[trigger] prev[j]).0 < next by {
            assert(prev[j] == s[j]);
        }
        lemma_issued_without(prev, e, next);
        assert(s[s.len() - 1].0 < next);
    }
}

/// `a` and `b` differ at most in their main flag.
pub open spec fn same_but_main<C>(a: Camera<C>, b: Camera<C>) -> bool {
    a.config == b.config && a.camera_data.bind_index == b.camera_data.bind_index && a.camera_data.dirty
        == b.camera_data.dirty
}

/// `c` with its main flag cleared.
pub open spec fn unmain<C>(c: Camera<C>) -> Camera<C> {
    Camera { config: c.config, camera_data: CameraData { is_main: false, ..c.camera_data } }
}

/// The entity list, one storage per component kind, and the resource manager.
///
/// `B`, `M`, `T` are the GPU buffer, mesh payload and material types; `D` an
/// instance record, `C` a camera's projection settings, `L` a light's parameters.
pub struct World<B, M, T, D, C, L> {
    pub entities: Vec<Entity>,
    pub registry: EntityRegistry,
    pub mesh_renderers: ComponentStorage<MeshRenderer>,
    pub instances: ComponentStorage<Instance<D>>,
    pub perspective_cameras: ComponentStorage<Camera<C>>,
    pub orthographic_cameras: ComponentStorage<Camera<C>>,
    pub directional_lights: ComponentStorage<Light<L>>,
    pub ambient_lights: ComponentStorage<Light<L>>,
    pub hierarchy: ComponentStorage<Hierarchy>,
    pub resource_manager: ResourceManager<B, M, T>,
}

/// Clears the main flag of every camera in `s`, changing nothing else.
fn clear_main_flags<C>(s: &mut ComponentStorage<Camera<C>>)
    requires
        old(s).wf(),
    ensures
        final(s).wf(),
        final(s).entity_seq() == old(s).entity_seq(),
        final(s).component_seq() == old(s).component_seq().map_values(|c: Camera<C>| unmain(c)),
{
    let n = s.len();
    let mut i: usize = 0;
    while i < n
        invariant
            s.wf(),
            n == s.entity_seq().len(),
            i <= n,
            s.entity_seq() == old(s).entity_seq(),
            s.component_seq().len() == old(s).component_seq().len(),
            forall|j: int| 0 <= j < i ==> #[trigger] s.component_seq()[j] == unmain(old(s).component_seq()[j]),
            forall|j: int| i <= j < n ==> #[trigger] s.component_seq()[j] == old(s).component_seq()[j],
        decreases n - i,
    {
        proof {
            s.lemma_valid();
        }
        let c = s.get_at_mut(i);
        c.camera_data.is_main = false;
        i = i + 1;
    }
    proof {
        s.lemma_valid();
        old(s).lemma_valid();
        assert(s.component_seq() =~= old(s).component_seq().map_values(|c: Camera<C>| unmain(c)));
    }
}

proof fn lemma_cleared_has_no_main<C>(before: ComponentStorage<Camera<C>>, after: ComponentStorage<Camera<C>>)
    requires
        before.wf(),
        after.wf(),
        after.entity_seq() == before.entity_seq(),
        after.component_seq() == before.component_seq().map_values(|c: Camera<C>| unmain(c)),
    ensures
        forall|x: Entity| !camera_is_main(after, x),
{
    after.lemma_valid();
    assert forall|x: Entity| !camera_is_main(after, x) by {
        if after.has(x) {
            after.lemma_found_in_slot(x);
        }
    }
}

/// Flags `entity`'s camera in `s` as main, if it has one; `s` holds no main
/// camera beforehand.
fn set_main_flag<C>(s: &mut ComponentStorage<Camera<C>>, entity: Entity)
    requires
        old(s).wf(),
        forall|x: Entity| !camera_is_main(*old(s), x),
    ensures
        final(s).wf(),
        final(s).entity_seq() == old(s).entity_seq(),
        forall|x: Entity| #[trigger] camera_is_main(*final(s), x) <==> (x == entity && old(s).has(entity)),
        final(s).component_seq().len() == old(s).component_seq().len(),
        forall|j: int|
            0 <= j < old(s).component_seq().len() ==> same_but_main(
                #[trigger] final(s).component_seq()[j],
                old(s).component_seq()[j],
            ),
{
    proof {
        old(s).lemma_valid();
    }
    match s.get_mut(entity) {
        Some(camera) => {
            let ghost c0 = *camera;
            camera.camera_data.is_main = true;
            proof {
                assert(same_but_main(*camera, c0));
            }
        },
        None => {},
    }
    proof {
        s.lemma_valid();
        assert forall|x: Entity| #[trigger] camera_is_main(*s, x) <==> (x == entity && old(s).has(entity)) by {
            if s.has(x) && x != entity {
                s.lemma_found_in_slot(x);
                let i = s.entity_seq().index_of(x);
                if old(s).has(entity) {
                    old(s).lemma_found_in_slot(entity);
                    assert(s.component_seq()[i] == old(s).component_seq()[i]);
                }
                assert(!camera_is_main(*old(s), x));
            }
            if x == entity && old(s).has(entity) {
                old(s).lemma_found_in_slot(entity);
            }
        }
    }
}

/// The first entity in `s`'s slot order whose camera is main.
fn first_main<C>(s: &ComponentStorage<Camera<C>>) -> (r: Option<Entity>)
    requires
        s.wf(),
    ensures
        match r {
            Some(e) => camera_is_main(*s, e) && s.has(e) && forall|j: int|
                0 <= j < s.entity_seq().index_of(e) ==> !(#[trigger] s.component_seq()[j]).camera_data.is_main,
            None => forall|e: Entity| !camera_is_main(*s, e),
        },
{
    let n = s.len();
    let mut i: usize = 0;
    proof {
        s.lemma_valid();
    }
    while i < n
        invariant
            s.wf(),
            n == s.entity_seq().len(),
            n == s.component_seq().len(),
            i <= n,
            forall|j: int| 0 <= j < i ==> !(#[trigger] s.component_seq()[j]).camera_data.is_main,
        decreases n - i,
    {
        if s.get_at(i).camera_data.is_main {
            let e = s.entity_at(i);
            proof {
                s.lemma_lookup_at(i as int);
            }
            return Some(e);
        }
        i = i + 1;
    }
    proof {
        assert forall|e: Entity| !camera_is_main(*s, e) by {
            if s.has(e) {
                s.lemma_found_in_slot(e);
            }
        }
    }
    None
}

impl<B, M, T, D, C, L> World<B, M, T, D, C, L> {
    pub open spec fn wf(&self) -> bool {
        &&& self.mesh_renderers.wf()
        &&& self.instances.wf()
        &&& self.perspective_cameras.wf()
        &&& self.orthographic_cameras.wf()
        &&& self.directional_lights.wf()
        &&& self.ambient_lights.wf()
        &&& self.hierarchy.wf()
        &&& self.resource_manager.wf()
    }

    /// Every entity on the list or in a storage was handed out by the registry.
    pub open spec fn ids_issued(&self) -> bool {
        let next = self.registry.next_id();
        &&& issued_below(self.entities@, next)
        &&& issued_below(self.mesh_renderers.entity_seq(), next)
        &&& issued_below(self.instances.entity_seq(), next)
        &&& issued_below(self.perspective_cameras.entity_seq(), next)
        &&& issued_below(self.orthographic_cameras.entity_seq(), next)
        &&& issued_below(self.directional_lights.entity_seq(), next)
        &&& issued_below(self.ambient_lights.entity_seq(), next)
        &&& issued_below(self.hierarchy.entity_seq(), next)
    }

    /// The camera storage for `kind`.
    pub open spec fn cameras(&self, kind: CameraType) -> ComponentStorage<Camera<C>> {
        match kind {
            CameraType::Perspective => self.perspective_cameras,
            CameraType::Orthographic => self.orthographic_cameras,
        }
    }

    /// Whether `e` holds a camera of `kind` flagged main.
    pub open spec fn is_main_camera(&self, kind: CameraType, e: Entity) -> bool {
        camera_is_main(self.cameras(kind), e)
    }

    pub fn new() -> (r: Self)
        ensures
            r.wf(),
            r.ids_issued(),
            r.entities@ == Seq::<Entity>::empty(),
            r.registry.next_id() == 0,
            r.mesh_renderers.entity_seq() == Seq::<Entity>::empty(),
            r.instances.entity_seq() == Seq::<Entity>::empty(),
            r.perspective_cameras.entity_seq() == Seq::<Entity>::empty(),
            r.orthographic_cameras.entity_seq() == Seq::<Entity>::empty(),
            r.directional_lights.entity_seq() == Seq::<Entity>::empty(),
            r.ambient_lights.entity_seq() == Seq::<Entity>::empty(),
            r.hierarchy.entity_seq() == Seq::<Entity>::empty(),
            r.resource_manager.buffers_view() == Map::<u32, crate::resource_manager::BufferResource<B>>::empty(),
            r.resource_manager.meshes_view() == Map::<u32, crate::mesh::Mesh<M>>::empty(),
            r.resource_manager.materials_view() == Map::<u32, T>::empty(),
            r.resource_manager.layouts_view() == Map::<u32, crate::resource_manager::BufferLayoutResource>::empty(),
            r.resource_manager.instance_view() == Map::<usize, crate::resource_manager::BufferId>::empty(),
            r.resource_manager.next_buffer_id() == 1,
            r.resource_manager.next_mesh_id() == 1,
            r.resource_manager.next_material_id() == 1,
            r.resource_manager.next_layout_id() == 1,
    {
        World {
            entities: Vec::new(),
            registry: EntityRegistry::new(),
            mesh_renderers: ComponentStorage::new(),
            instances: ComponentStorage::new(),
            perspective_cameras: ComponentStorage::new(),
            orthographic_cameras: ComponentStorage::new(),
            directional_lights: ComponentStorage::new(),
            ambient_lights: ComponentStorage::new(),
            hierarchy: ComponentStorage::new(),
            resource_manager: ResourceManager::new(),
        }
    }

    pub fn resource_manager(&self) -> (r: &ResourceManager<B, M, T>)
        ensures
            *r == self.resource_manager,
    {
        &self.resource_manager
    }

    pub fn resource_manager_mut(&mut self) -> (r: &mut ResourceManager<B, M, T>)
        ensures
            *r == old(self).resource_manager,
            final(self).resource_manager == *final(r),
            final(self).entities == old(self).entities,
            final(self).mesh_renderers == old(self).mesh_renderers,
            final(self).instances == old(self).instances,
            final(self).perspective_cameras == old(self).perspective_cameras,
            final(self).orthographic_cameras == old(self).orthographic_cameras,
            final(self).directional_lights == old(self).directional_lights,
            final(self).ambient_lights == old(self).ambient_lights,
            final(self).hierarchy == old(self).hierarchy,
    {
        &mut self.resource_manager
    }

    /// Allocates a fresh entity and appends it to the entity list.
    pub fn create_entity(&mut self) -> (e: Entity)
        requires
            old(self).registry.next_id() < usize::MAX,
        ensures
            e.0 == old(self).registry.next_id(),
            final(self).registry.next_id() == old(self).registry.next_id() + 1,
            final(self).entities@ == old(self).entities@.push(e),
            final(self).mesh_renderers == old(self).mesh_renderers,
            final(self).instances == old(self).instances,
            final(self).perspective_cameras == old(self).perspective_cameras,
            final(self).orthographic_cameras == old(self).orthographic_cameras,
            final(self).directional_lights == old(self).directional_lights,
            final(self).ambient_lights == old(self).ambient_lights,
            final(self).hierarchy == old(self).hierarchy,
            final(self).resource_manager == old(self).resource_manager,
            old(self).ids_issued() ==> {
                &&& final(self).ids_issued()
                &&& forall|i: int| 0 <= i < old(self).entities@.len() ==> (#[trigger] old(self).entities@[i]).0 < e.0
                &&& !final(self).mesh_renderers.has(e)
                &&& !final(self).instances.has(e)
                &&& !final(self).perspective_cameras.has(e)
                &&& !final(self).orthographic_cameras.has(e)
                &&& !final(self).directional_lights.has(e)
                &&& !final(self).ambient_lights.has(e)
                &&& !final(self).hierarchy.has(e)
            },
    {
        let e = self.registry.new_entity();
        self.entities.push(e);
        proof {
            let next = self.registry.next_id();
            if old(self).ids_issued() {
                assert forall|i: int| 0 <= i < self.entities@.len() implies (#[trigger] self.entities@[i]).0 < next by {
                    if i < old(self).entities@.len() {
                        assert(self.entities@[i] == old(self).entities@[i]);
                    }
                }
                assert(issued_below(self.mesh_renderers.entity_seq(), next));
                assert(issued_below(self.instances.entity_seq(), next));
                assert(issued_below(self.perspective_cameras.entity_seq(), next));
                assert(issued_below(self.orthographic_cameras.entity_seq(), next));
                assert(issued_below(self.directional_lights.entity_seq(), next));
                assert(issued_below(self.ambient_lights.entity_seq(), next));
                assert(issued_below(self.hierarchy.entity_seq(), next));
            }
        }
        e
    }

    /// Removes `entity` from every component storage and from the entity list.
    pub fn remove_entity(&mut self, entity: Entity)
        requires
            old(self).wf(),
        ensures
            final(self).wf(),
            old(self).ids_issued() ==> final(self).ids_issued(),
            final(self).entities@ == without(old(self).entities@, entity),
            (final(self).mesh_renderers.entity_seq(), final(self).mesh_renderers.component_seq())
                == storage_remove(old(self).mesh_renderers.entity_seq(), old(self).mesh_renderers.component_seq(), entity),
            (final(self).instances.entity_seq(), final(self).instances.component_seq())
                == storage_remove(old(self).instances.entity_seq(), old(self).instances.component_seq(), entity),
            (final(self).perspective_cameras.entity_seq(), final(self).perspective_cameras.component_seq())
                == storage_remove(old(self).perspective_cameras.entity_seq(), old(self).perspective_cameras.component_seq(), entity),
            (final(self).orthographic_cameras.entity_seq(), final(self).orthographic_cameras.component_seq())
                == storage_remove(old(self).orthographic_cameras.entity_seq(), old(self).orthographic_cameras.component_seq(), entity),
            (final(self).directional_lights.entity_seq(), final(self).directional_lights.component_seq())
                == storage_remove(old(self).directional_lights.entity_seq(), old(self).directional_lights.component_seq(), entity),
            (final(self).ambient_lights.entity_seq(), final(self).ambient_lights.component_seq())
                == storage_remove(old(self).ambient_lights.entity_seq(), old(self).ambient_lights.component_seq(), entity),
            (final(self).hierarchy.entity_seq(), final(self).hierarchy.component_seq())
                == storage_remove(old(self).hierarchy.entity_seq(), old(self).hierarchy.component_seq(), entity),
            final(self).registry == old(self).registry,
            final(self).resource_manager == old(self).resource_manager,
    {
        self.mesh_renderers.remove(entity);
        self.instances.remove(entity);
        self.perspective_cameras.remove(entity);
        self.orthographic_cameras.remove(entity);
        self.directional_lights.remove(entity);
        self.ambient_lights.remove(entity);
        self.hierarchy.remove(entity);
        let mut kept: Vec<Entity> = Vec::new();
        let mut i: usize = 0;
        while i < self.entities.len()
            invariant
                i <= self.entities.len(),
                self.entities == old(self).entities,
                kept@ == without(self.entities@.subrange(0, i as int), entity),
            decreases self.entities.len() - i,
        {
            let e = self.entities[i];
            proof {
                let s1 = self.entities@.subrange(0, i as int + 1);
                assert(s1.drop_last() =~= self.entities@.subrange(0, i as int));
                assert(s1.last() == e);
            }
            if e != entity {
                kept.push(e);
            }
            i = i + 1;
        }
        proof {
            assert(self.entities@.subrange(0, i as int) =~= self.entities@);
        }
        self.entities = kept;
        proof {
            let next = old(self).registry.next_id();
            if old(self).ids_issued() {
                lemma_issued_without(old(self).entities@, entity, next);
                lemma_issued_remove(old(self).mesh_renderers.entity_seq(), old(self).mesh_renderers.component_seq(), entity, next);
                lemma_issued_remove(old(self).instances.entity_seq(), old(self).instances.component_seq(), entity, next);
                lemma_issued_remove(old(self).perspective_cameras.entity_seq(), old(self).perspective_cameras.component_seq(), entity, next);
                lemma_issued_remove(old(self).orthographic_cameras.entity_seq(), old(self).orthographic_cameras.component_seq(), entity, next);
                lemma_issued_remove(old(self).directional_lights.entity_seq(), old(self).directional_lights.component_seq(), entity, next);
                lemma_issued_remove(old(self).ambient_lights.entity_seq(), old(self).ambient_lights.component_seq(), entity, next);
                lemma_issued_remove(old(self).hierarchy.entity_seq(), old(self).hierarchy.component_seq(), entity, next);
            }
        }
    }

    /// The main camera: the first flagged perspective camera in storage order,
    /// else the first flagged orthographic one.
    pub fn get_main_camera_entity(&self) -> (r: Option<(Entity, CameraType)>)
        requires
            self.wf(),
        ensures
            match r {
                Some((e, kind)) => {
                    &&& self.is_main_camera(kind, e)
                    &&& kind == CameraType::Orthographic ==> forall|x: Entity|
                        !self.is_main_camera(CameraType::Perspective, x)
                    &&& forall|j: int|
                        0 <= j < self.cameras(kind).entity_seq().index_of(e)
                            ==> !(#[trigger] self.cameras(kind).component_seq()[j]).camera_data.is_main
                },
                None => forall|kind: CameraType, x: Entity| !self.is_main_camera(kind, x),
            },
    {
        match first_main(&self.perspective_cameras) {
            Some(e) => Some((e, CameraType::Perspective)),
            None => match first_main(&self.orthographic_cameras) {
                Some(e) => Some((e, CameraType::Orthographic)),
                None => {
                    proof {
                        assert forall|kind: CameraType, x: Entity| !self.is_main_camera(kind, x) by {
                            match kind {
                                CameraType::Perspective => {},
                                CameraType::Orthographic => {},
                            }
                        }
                    }
                    None
                },
            },
        }
    }

    /// Clears the main flag on every camera of every kind, then sets it on
    /// `entity`'s camera of `kind`, if it has one.
    pub fn set_main_camera(&mut self, entity: Entity, kind: CameraType)
        requires
            old(self).wf(),
        ensures
            final(self).wf(),
            forall|k: CameraType, x: Entity|
                #[trigger] final(self).is_main_camera(k, x) <==> (k == kind && x == entity && old(
                    self,
                ).cameras(kind).has(entity)),
            forall|k: CameraType| #[trigger] final(self).cameras(k).entity_seq() == old(self).cameras(k).entity_seq(),
            old(self).ids_issued() ==> final(self).ids_issued(),
            forall|k: CameraType| #[trigger] final(self).cameras(k).component_seq().len() == old(self).cameras(k).component_seq().len(),
            forall|k: CameraType, j: int|
                0 <= j < old(self).cameras(k).component_seq().len() ==> same_but_main(
                    #[trigger] final(self).cameras(k).component_seq()[j],
                    old(self).cameras(k).component_seq()[j],
                ),
            final(self).entities == old(self).entities,
            final(self).registry == old(self).registry,
            final(self).mesh_renderers == old(self).mesh_renderers,
            final(self).instances == old(self).instances,
            final(self).directional_lights == old(self).directional_lights,
            final(self).ambient_lights == old(self).ambient_lights,
            final(self).hierarchy == old(self).hierarchy,
            final(self).resource_manager == old(self).resource_manager,
    {
        clear_main_flags(&mut self.perspective_cameras);
        clear_main_flags(&mut self.orthographic_cameras);
        proof {
            lemma_cleared_has_no_main(old(self).perspective_cameras, self.perspective_cameras);
            lemma_cleared_has_no_main(old(self).orthographic_cameras, self.orthographic_cameras);
        }
        match kind {
            CameraType::Perspective => set_main_flag(&mut self.perspective_cameras, entity),
            CameraType::Orthographic => set_main_flag(&mut self.orthographic_cameras, entity),
        }
        proof {
            assert forall|k: CameraType, x: Entity|
                #[trigger] self.is_main_camera(k, x) <==> (k == kind && x == entity && old(self).cameras(kind).has(entity)) by {
                match k {
                    CameraType::Perspective => {},
                    CameraType::Orthographic => {},
                }
            }
            assert forall|k: CameraType| #[trigger] self.cameras(k).entity_seq() == old(self).cameras(k).entity_seq() by {
                match k {
                    CameraType::Perspective => {},
                    CameraType::Orthographic => {},
                }
            }
            old(self).perspective_cameras.lemma_valid();
            old(self).orthographic_cameras.lemma_valid();
            self.perspective_cameras.lemma_valid();
            self.orthographic_cameras.lemma_valid();
            assert forall|k: CameraType| #[trigger] self.cameras(k).component_seq().len() == old(self).cameras(k).component_seq().len() by {
                match k {
                    CameraType::Perspective => {},
                    CameraType::Orthographic => {},
                }
            }
            assert forall|k: CameraType, j: int|
                0 <= j < old(self).cameras(k).component_seq().len() implies same_but_main(
                    #[trigger] self.cameras(k).component_seq()[j],
                    old(self).cameras(k).component_seq()[j],
                ) by {
                match k {
                    CameraType::Perspective => {},
                    CameraType::Orthographic => {},
                }
            }
        }
    }

    /// Drops every component and every resource; the entity list is kept.
    pub fn cleanup(&mut self)
        ensures
            final(self).wf(),
            old(self).ids_issued() ==> final(self).ids_issued(),
            final(self).entities == old(self).entities,
            final(self).registry == old(self).registry,
            final(self).mesh_renderers.entity_seq() == Seq::<Entity>::empty(),
            final(self).instances.entity_seq() == Seq::<Entity>::empty(),
            final(self).perspective_cameras.entity_seq() == Seq::<Entity>::empty(),
            final(self).orthographic_cameras.entity_seq() == Seq::<Entity>::empty(),
            final(self).directional_lights.entity_seq() == Seq::<Entity>::empty(),
            final(self).ambient_lights.entity_seq() == Seq::<Entity>::empty(),
            final(self).hierarchy.entity_seq() == Seq::<Entity>::empty(),
            final(self).resource_manager.buffers_view() == Map::<u32, crate::resource_manager::BufferResource<B>>::empty(),
            final(self).resource_manager.meshes_view() == Map::<u32, crate::mesh::Mesh<M>>::empty(),
            final(self).resource_manager.materials_view() == Map::<u32, T>::empty(),
    {
        self.mesh_renderers = ComponentStorage::new();
        self.instances = ComponentStorage::new();
        self.perspective_cameras = ComponentStorage::new();
        self.orthographic_cameras = ComponentStorage::new();
        self.directional_lights = ComponentStorage::new();
        self.ambient_lights = ComponentStorage::new();
        self.hierarchy = ComponentStorage::new();
        self.resource_manager.cleanup();
    }
}

} // verus!

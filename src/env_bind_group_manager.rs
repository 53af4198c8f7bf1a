use vstd::prelude::*;

use crate::id_map::{map_lookup, IdMap};
use crate::name_index::NameIndex;
use crate::resource_manager::INVALID_ID;

verus! {

/// Handle of an environment bind group.
#[derive(Debug, Clone, Copy, PartialEq, Eq, Hash, Structural)]
pub struct EnvBindGroupId(pub u32);

impl EnvBindGroupId {
    pub fn invalid() -> (r: Self)
        ensures
            r.0 == INVALID_ID,
    {
        EnvBindGroupId(INVALID_ID)
    }

    pub fn is_valid(&self) -> (r: bool)
        ensures
            r == (self.0 != INVALID_ID),
    {
        self.0 != INVALID_ID
    }
}

/// A bind group `G` with its layout `Y`, the group index it binds at, and an
/// optional name.
pub struct EnvBindGroup<G, Y> {
    pub bind_group: G,
    pub bind_group_layout: Y,
    pub index: u32,
    pub label: Option<String>,
}

/// Why an environment bind group update was refused.
#[derive(Debug, Clone, Copy, PartialEq, Eq, Structural)]
pub enum EnvBindGroupError {
    NotFound,
}

/// Create / read / update / delete of environment bind groups by handle and by name.
pub struct EnvBindGroupManager<G, Y> {
    bind_groups: IdMap<EnvBindGroup<G, Y>>,
    bind_groups_by_name: NameIndex,
    next_id: u32,
}

impl<G, Y> EnvBindGroupManager<G, Y> {
    pub closed spec fn groups(&self) -> Map<u32, EnvBindGroup<G, Y>> {
        self.bind_groups@
    }

    /// Handles of the live groups, in creation order.
    pub closed spec fn group_order(&self) -> Seq<u32> {
        self.bind_groups.key_seq()
    }

    pub closed spec fn names(&self) -> Map<Seq<char>, u32> {
        self.bind_groups_by_name@
    }

    pub closed spec fn next_id(&self) -> u32 {
        self.next_id
    }

    pub closed spec fn wf(&self) -> bool {
        &&& self.bind_groups.wf()
        &&& self.bind_groups_by_name.wf()
        &&& 1 <= self.next_id
        &&& forall|k: u32| #[trigger] self.bind_groups@.contains_key(k) ==> 1 <= k < self.next_id
    }

    pub fn new() -> (r: Self)
        ensures
            r.wf(),
            r.groups() == Map::<u32, EnvBindGroup<G, Y>>::empty(),
            r.names() == Map::<Seq<char>, u32>::empty(),
            r.next_id() == 1,
    {
        EnvBindGroupManager { bind_groups: IdMap::new(), bind_groups_by_name: NameIndex::new(), next_id: 1 }
    }

    pub fn add_bind_group(&mut self, bind_group: G, bind_group_layout: Y, index: u32, label: Option<String>) -> (id: EnvBindGroupId)
        requires
            old(self).wf(),
            old(self).next_id() < INVALID_ID,
        ensures
            final(self).wf(),
            id.0 == old(self).next_id(),
            final(self).next_id() == old(self).next_id() + 1,
            !old(self).groups().contains_key(id.0),
            final(self).groups().dom() == old(self).groups().dom().insert(id.0),
            final(self).groups()[id.0].bind_group == bind_group,
            final(self).groups()[id.0].bind_group_layout == bind_group_layout,
            final(self).groups()[id.0].index == index,
            final(self).groups()[id.0].label == label,
            forall|k: u32| k != id.0 ==> #[trigger] map_lookup(final(self).groups(), k) == map_lookup(old(self).groups(), k),
            final(self).names() == match label {
                Some(n) => old(self).names().insert(n@, id.0),
                None => old(self).names(),
            },
    {
        let id = EnvBindGroupId(self.next_id);
        self.next_id = self.next_id + 1;
        let stored_label = match &label {
            Some(n) => Some(n.clone()),
            None => None,
        };
        self.bind_groups.insert_new(id.0, EnvBindGroup { bind_group, bind_group_layout, index, label: stored_label });
        match label {
            Some(n) => self.bind_groups_by_name.insert(n, id.0),
            None => {},
        }
        proof {
            assert(final(self).groups().dom() =~= old(self).groups().dom().insert(id.0));
        }
        id
    }

    pub fn get_bind_group(&self, id: EnvBindGroupId) -> (r: Option<&EnvBindGroup<G, Y>>)
        requires
            self.wf(),
        ensures
            match r {
                Some(g) => map_lookup(self.groups(), id.0) == Some(*g),
                None => map_lookup(self.groups(), id.0) == None::<EnvBindGroup<G, Y>>,
            },
    {
        self.bind_groups.get(id.0)
    }

    pub fn get_bind_group_mut(&mut self, id: EnvBindGroupId) -> (r: Option<&mut EnvBindGroup<G, Y>>)
        requires
            old(self).wf(),
        ensures
            match r {
                Some(g) => {
                    &&& map_lookup(old(self).groups(), id.0) == Some(*g)
                    &&& final(self).groups() == old(self).groups().insert(id.0, *final(g))
                },
                None => {
                    &&& map_lookup(old(self).groups(), id.0) == None::<EnvBindGroup<G, Y>>
                    &&& final(self).groups() == old(self).groups()
                },
            },
            final(self).wf(),
            final(self).names() == old(self).names(),
            final(self).next_id() == old(self).next_id(),
    {
        self.bind_groups.get_mut(id.0)
    }

    pub fn get_bind_group_by_name(&self, name: &str) -> (r: Option<&EnvBindGroup<G, Y>>)
        requires
            self.wf(),
        ensures
            match r {
                Some(g) => self.names().contains_key(name@) && map_lookup(self.groups(), self.names()[name@]) == Some(*g),
                None => !self.names().contains_key(name@) || !self.groups().contains_key(self.names()[name@]),
            },
    {
        match self.bind_groups_by_name.get(name) {
            Some(id) => self.bind_groups.get(id),
            None => None,
        }
    }

    pub fn get_bind_group_id_by_name(&self, name: &str) -> (r: Option<EnvBindGroupId>)
        requires
            self.wf(),
        ensures
            match r {
                Some(id) => self.names().contains_key(name@) && self.names()[name@] == id.0,
                None => !self.names().contains_key(name@),
            },
    {
        match self.bind_groups_by_name.get(name) {
            Some(id) => Some(EnvBindGroupId(id)),
            None => None,
        }
    }

    /// Replaces the group, layout and index of `id`; its name stays.
    pub fn update_bind_group(&mut self, id: EnvBindGroupId, bind_group: G, bind_group_layout: Y, index: u32) -> (r: Result<(), EnvBindGroupError>)
        requires
            old(self).wf(),
        ensures
            final(self).wf(),
            r is Ok <==> old(self).groups().contains_key(id.0),
            r is Ok ==> final(self).groups() == old(self).groups().insert(
                id.0,
                EnvBindGroup { bind_group, bind_group_layout, index, label: old(self).groups()[id.0].label },
            ),
            r is Err ==> final(self).groups() == old(self).groups(),
            final(self).names() == old(self).names(),
    {
        match self.bind_groups.get_mut(id.0) {
            Some(group) => {
                group.bind_group = bind_group;
                group.bind_group_layout = bind_group_layout;
                group.index = index;
                Ok(())
            },
            None => Err(EnvBindGroupError::NotFound),
        }
    }

    /// Removes group `id` and the name it was added under.
    pub fn remove_bind_group(&mut self, id: EnvBindGroupId) -> (r: Option<EnvBindGroup<G, Y>>)
        requires
            old(self).wf(),
        ensures
            final(self).wf(),
            r == map_lookup(old(self).groups(), id.0),
            final(self).groups() == old(self).groups().remove(id.0),
            final(self).names() == match r {
                Some(g) => match g.label {
                    Some(l) => old(self).names().remove(l@),
                    None => old(self).names(),
                },
                None => old(self).names(),
            },
    {
        let removed = self.bind_groups.remove(id.0);
        match &removed {
            Some(g) => match &g.label {
                Some(l) => {
                    self.bind_groups_by_name.remove_name(l.as_str());
                },
                None => {},
            },
            None => {},
        }
        removed
    }

    /// Removes the name `name` and the group it names.
    pub fn remove_bind_group_by_name(&mut self, name: &str) -> (r: Option<EnvBindGroup<G, Y>>)
        requires
            old(self).wf(),
        ensures
            final(self).wf(),
            final(self).names() == old(self).names().remove(name@),
            old(self).names().contains_key(name@) ==> r == map_lookup(old(self).groups(), old(self).names()[name@])
                && final(self).groups() == old(self).groups().remove(old(self).names()[name@]),
            !old(self).names().contains_key(name@) ==> r is None && final(self).groups() == old(self).groups(),
    {
        match self.bind_groups_by_name.remove_name(name) {
            Some(id) => self.bind_groups.remove(id),
            None => None,
        }
    }

    /// Every group, in creation order.
    pub fn get_all_bind_groups(&self) -> (r: Vec<&EnvBindGroup<G, Y>>)
        requires
            self.wf(),
        ensures
            r.len() == self.group_order().len(),
            forall|i: int| 0 <= i < r.len() ==> *#[trigger] r@[i] == self.groups()[self.group_order()[i]],
    {
        let mut out: Vec<&EnvBindGroup<G, Y>> = Vec::new();
        let n = self.bind_groups.len();
        let mut i: usize = 0;
        while i < n
            invariant
                self.wf(),
                n == self.group_order().len(),
                i <= n,
                out.len() == i,
                forall|j: int| 0 <= j < i ==> *#[trigger] out@[j] == self.groups()[self.group_order()[j]],
            decreases n - i,
        {
            let (_, g) = self.bind_groups.entry_at(i);
            out.push(g);
            i = i + 1;
        }
        out
    }

    /// Every group's layout, in creation order.
    pub fn get_all_bind_group_layouts(&self) -> (r: Vec<&Y>)
        requires
            self.wf(),
        ensures
            r.len() == self.group_order().len(),
            forall|i: int| 0 <= i < r.len() ==> *#[trigger] r@[i] == self.groups()[self.group_order()[i]].bind_group_layout,
    {
        let mut out: Vec<&Y> = Vec::new();
        let n = self.bind_groups.len();
        let mut i: usize = 0;
        while i < n
            invariant
                self.wf(),
                n == self.group_order().len(),
                i <= n,
                out.len() == i,
                forall|j: int| 0 <= j < i ==> *#[trigger] out@[j] == self.groups()[self.group_order()[j]].bind_group_layout,
            decreases n - i,
        {
            let (_, g) = self.bind_groups.entry_at(i);
            out.push(&g.bind_group_layout);
            i = i + 1;
        }
        out
    }

    pub fn contains(&self, id: EnvBindGroupId) -> (r: bool)
        requires
            self.wf(),
        ensures
            r == self.groups().contains_key(id.0),
    {
        self.bind_groups.contains(id.0)
    }

    pub fn contains_name(&self, name: &str) -> (r: bool)
        requires
            self.wf(),
        ensures
            r == self.names().contains_key(name@),
    {
        self.bind_groups_by_name.get(name).is_some()
    }

    pub fn count(&self) -> (r: usize)
        requires
            self.wf(),
        ensures
            r == self.group_order().len(),
    {
        self.bind_groups.len()
    }

    /// Drops every group and name; handles keep counting up.
    pub fn clear(&mut self)
        requires
            old(self).wf(),
        ensures
            final(self).wf(),
            final(self).groups() == Map::<u32, EnvBindGroup<G, Y>>::empty(),
            final(self).names() == Map::<Seq<char>, u32>::empty(),
            final(self).next_id() == old(self).next_id(),
    {
        self.bind_groups = IdMap::new();
        self.bind_groups_by_name = NameIndex::new();
    }

    /// Every registered name, each once.
    pub fn list_names(&self) -> (r: Vec<&String>)
        requires
            self.wf(),
        ensures
            r.len() == self.names().dom().len(),
            forall|i: int| 0 <= i < r.len() ==> self.names().contains_key((#[trigger] r@[i])@),
            forall|i: int, j: int| 0 <= i < r.len() && 0 <= j < r.len() && i != j ==> (#[trigger] r@[i])@ != (#[trigger] r@[j])@,
    {
        self.bind_groups_by_name.names()
    }
}

} // verus!

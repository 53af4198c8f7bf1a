use std::collections::HashMap;
use vstd::prelude::*;

use crate::entity::Entity;

verus! {

broadcast use vstd::std_specs::hash::group_hash_axioms;

/// A storage's contents as two parallel sequences: the stored entities in slot
/// order, and their components. Valid when the lengths agree and no entity is
/// stored twice.
pub open spec fn storage_valid<T>(es: Seq<Entity>, cs: Seq<T>) -> bool {
    es.len() == cs.len() && es.no_duplicates()
}

/// The component stored for `e`, if any.
pub open spec fn storage_lookup<T>(es: Seq<Entity>, cs: Seq<T>, e: Entity) -> Option<T> {
    if es.contains(e) {
        Some(cs[es.index_of(e)])
    } else {
        None
    }
}

/// Contents after storing `v` for `e`: replaced in place, or appended.
pub open spec fn storage_insert<T>(es: Seq<Entity>, cs: Seq<T>, e: Entity, v: T) -> (Seq<Entity>, Seq<T>) {
    if es.contains(e) {
        (es, cs.update(es.index_of(e), v))
    } else {
        (es.push(e), cs.push(v))
    }
}

/// Contents after removing `e`: the last slot moves into `e`'s slot.
pub open spec fn storage_remove<T>(es: Seq<Entity>, cs: Seq<T>, e: Entity) -> (Seq<Entity>, Seq<T>) {
    if es.contains(e) {
        let i = es.index_of(e);
        (es.update(i, es.last()).drop_last(), cs.update(i, cs.last()).drop_last())
    } else {
        (es, cs)
    }
}

proof fn lemma_index_unique(es: Seq<Entity>, e: Entity, i: int)
    requires
        es.no_duplicates(),
        0 <= i < es.len(),
        es[i] == e,
    ensures
        es.contains(e),
        es.index_of(e) == i,
{
    assert(es.contains(e));
}

/// Storing `v` for `e` and then looking `e` up gives `v`, and the contents stay valid.
pub proof fn lemma_insert_then_lookup<T>(es: Seq<Entity>, cs: Seq<T>, e: Entity, v: T)
    requires
        storage_valid(es, cs),
    ensures
        storage_valid(storage_insert(es, cs, e, v).0, storage_insert(es, cs, e, v).1),
        storage_lookup(storage_insert(es, cs, e, v).0, storage_insert(es, cs, e, v).1, e) == Some(v),
{
    let (es2, cs2) = storage_insert(es, cs, e, v);
    if es.contains(e) {
        lemma_index_unique(es2, e, es.index_of(e));
    } else {
        assert forall|i: int, j: int| 0 <= i < es2.len() && 0 <= j < es2.len() && i != j
            implies es2[i] != es2[j] by {
            if i == es.len() as int {
                assert(es[j] == es2[j]);
            } else if j == es.len() as int {
                assert(es[i] == es2[i]);
            }
        }
        lemma_index_unique(es2, e, es.len() as int);
    }
}

/// Storing a value for `e` leaves every other entity's component as it was.
pub proof fn lemma_insert_keeps_others<T>(es: Seq<Entity>, cs: Seq<T>, e: Entity, v: T, other: Entity)
    requires
        storage_valid(es, cs),
        other != e,
    ensures
        storage_lookup(storage_insert(es, cs, e, v).0, storage_insert(es, cs, e, v).1, other)
            == storage_lookup(es, cs, other),
{
    let (es2, cs2) = storage_insert(es, cs, e, v);
    lemma_insert_then_lookup(es, cs, e, v);
    if es.contains(other) {
        let j = es.index_of(other);
        assert(es2[j] == other);
        lemma_index_unique(es2, other, j);
        if es.contains(e) {
            assert(es[es.index_of(e)] == e);
        }
    }
    if es2.contains(other) {
        let k = choose|k: int| 0 <= k < es2.len() && es2[k] == other;
        if k < es.len() {
            assert(es[k] == other);
        }
    }
}

/// Removing `e` leaves every other entity's component as it was, `e` is no
/// longer found, and the contents stay valid.
pub proof fn lemma_remove_keeps_others<T>(es: Seq<Entity>, cs: Seq<T>, e: Entity, other: Entity)
    requires
        storage_valid(es, cs),
        other != e,
    ensures
        storage_valid(storage_remove(es, cs, e).0, storage_remove(es, cs, e).1),
        storage_lookup(storage_remove(es, cs, e).0, storage_remove(es, cs, e).1, e) == None::<T>,
        storage_lookup(storage_remove(es, cs, e).0, storage_remove(es, cs, e).1, other)
            == storage_lookup(es, cs, other),
{
    if es.contains(e) {
        let i = es.index_of(e);
        let last = es.len() - 1;
        let (es2, cs2) = storage_remove(es, cs, e);
        assert forall|a: int, b: int| 0 <= a < es2.len() && 0 <= b < es2.len() && a != b
            implies es2[a] != es2[b] by {
            let oa = if a == i { last } else { a };
            let ob = if b == i { last } else { b };
            assert(es2[a] == es[oa]);
            assert(es2[b] == es[ob]);
        }
        if es2.contains(e) {
            let k = choose|k: int| 0 <= k < es2.len() && es2[k] == e;
            let ok = if k == i { last } else { k };
            assert(es[ok] == e);
        }
        if es.contains(other) {
            let j = es.index_of(other);
            let nj = if j == last { i } else { j };
            assert(es2[nj] == other);
            lemma_index_unique(es2, other, nj);
        }
        if es2.contains(other) {
            let k = choose|k: int| 0 <= k < es2.len() && es2[k] == other;
            let ok = if k == i { last } else { k };
            assert(es[ok] == other);
        }
    }
}

/// What every component storage offers without naming its component type.
pub trait ComponentStorageTrait {
    spec fn storage_ok(&self) -> bool;

    /// Removes `entity`'s component, if any; returns whether there was one.
    fn remove_entity(&mut self, entity: Entity) -> (r: bool)
        requires
            old(self).storage_ok(),
        ensures
            final(self).storage_ok();
}

/// A sparse set mapping entities to components of one type.
///
/// `components[i]` belongs to `entities[i]`, and `entity_to_index` maps each
/// stored entity's id to its slot. Removal swaps the last slot into the hole.
pub struct ComponentStorage<T> {
    components: Vec<T>,
    entities: Vec<Entity>,
    entity_to_index: HashMap<usize, usize>,
}

impl<T> ComponentStorage<T> {
    /// The stored entities, in slot order.
    pub closed spec fn entity_seq(&self) -> Seq<Entity> {
        self.entities@
    }

    /// The stored components, in slot order (parallel to `entity_seq`).
    pub closed spec fn component_seq(&self) -> Seq<T> {
        self.components@
    }

    pub open spec fn has(&self, e: Entity) -> bool {
        self.entity_seq().contains(e)
    }

    /// The component stored for `e`, if any.
    pub open spec fn lookup(&self, e: Entity) -> Option<T> {
        storage_lookup(self.entity_seq(), self.component_seq(), e)
    }

    pub closed spec fn wf(&self) -> bool {
        &&& self.components.len() == self.entities.len()
        &&& forall|i: int|
            0 <= i < self.entities.len() ==> {
                &&& #[trigger] self.entity_to_index@.contains_key(self.entities@[i].0)
                &&& self.entity_to_index@[self.entities@[i].0] == i
            }
        &&& forall|k: usize| #[trigger]
            self.entity_to_index@.contains_key(k) ==> {
                &&& self.entity_to_index@[k] < self.entities.len()
                &&& self.entities@[self.entity_to_index@[k] as int].0 == k
            }
    }

    /// A well-formed storage has valid contents.
    pub proof fn lemma_valid(&self)
        requires
            self.wf(),
        ensures
            storage_valid(self.entity_seq(), self.component_seq()),
    {
        self.lemma_slots();
    }

    proof fn lemma_slots(&self)
        requires
            self.wf(),
        ensures
            self.entities.len() == self.components.len(),
            self.entities@.no_duplicates(),
            forall|e: Entity| #[trigger]
                self.has(e) ==> {
                    &&& self.entity_to_index@.contains_key(e.0)
                    &&& self.entities@.index_of(e) == self.entity_to_index@[e.0] as int
                },
    {
        assert forall|i: int, j: int|
            0 <= i < self.entities.len() && 0 <= j < self.entities.len() && i != j
            implies self.entities@[i] != self.entities@[j] by {
            assert(self.entity_to_index@.contains_key(self.entities@[i].0));
            assert(self.entity_to_index@.contains_key(self.entities@[j].0));
        }
        assert forall|e: Entity| #[trigger] self.has(e) implies {
            &&& self.entity_to_index@.contains_key(e.0)
            &&& self.entities@.index_of(e) == self.entity_to_index@[e.0] as int
        } by {
            let i = choose|i: int| 0 <= i < self.entities.len() && self.entities@[i] == e;
            assert(self.entity_to_index@.contains_key(self.entities@[i].0));
            lemma_index_unique(self.entities@, e, i);
        }
    }

    proof fn lemma_not_stored(&self, e: Entity)
        requires
            self.wf(),
            !self.entity_to_index@.contains_key(e.0),
        ensures
            !self.has(e),
    {
        if self.has(e) {
            let i = choose|i: int| 0 <= i < self.entities.len() && self.entities@[i] == e;
            assert(self.entity_to_index@.contains_key(self.entities@[i].0));
        }
    }

    pub fn new() -> (r: Self)
        ensures
            r.wf(),
            r.entity_seq() == Seq::<Entity>::empty(),
            r.component_seq() == Seq::<T>::empty(),
    {
        ComponentStorage { components: Vec::new(), entities: Vec::new(), entity_to_index: HashMap::new() }
    }

    /// Stores `component` for `entity`, replacing the value in place when one
    /// is already stored and appending a new slot otherwise.
    pub fn insert(&mut self, entity: Entity, component: T)
        requires
            old(self).wf(),
        ensures
            final(self).wf(),
            (final(self).entity_seq(), final(self).component_seq()) == storage_insert(
                old(self).entity_seq(),
                old(self).component_seq(),
                entity,
                component,
            ),
    {
        proof {
            self.lemma_slots();
        }
        match self.entity_to_index.get(&entity.0) {
            Some(index) => {
                let index = *index;
                proof {
                    if !self.has(entity) {
                        assert(self.entity_to_index@.contains_key(entity.0));
                        assert(self.entities@[index as int].0 == entity.0);
                        assert(self.entities@[index as int] == entity);
                    }
                }
                self.components.set(index, component);
            },
            None => {
                proof {
                    self.lemma_not_stored(entity);
                }
                let index = self.components.len();
                self.components.push(component);
                self.entities.push(entity);
                self.entity_to_index.insert(entity.0, index);
                proof {
                    assert forall|i: int| 0 <= i < self.entities.len() implies {
                        &&& #[trigger] self.entity_to_index@.contains_key(self.entities@[i].0)
                        &&& self.entity_to_index@[self.entities@[i].0] == i
                    } by {
                        if i < index {
                            assert(old(self).entity_to_index@.contains_key(
                                old(self).entities@[i].0,
                            ));
                        }
                    }
                }
            },
        }
    }

    pub fn get(&self, entity: Entity) -> (r: Option<&T>)
        requires
            self.wf(),
        ensures
            match r {
                Some(c) => self.lookup(entity) == Some(*c),
                None => self.lookup(entity) == None::<T>,
            },
    {
        proof {
            self.lemma_slots();
        }
        match self.entity_to_index.get(&entity.0) {
            Some(index) => {
                proof {
                    assert(self.entities@[*index as int].0 == entity.0);
                    assert(self.entities@[*index as int] == entity);
                    lemma_index_unique(self.entities@, entity, *index as int);
                }
                Some(&self.components[*index])
            },
            None => {
                proof {
                    self.lemma_not_stored(entity);
                }
                None
            },
        }
    }

    /// A mutable reference to the component stored for `entity`, if any.
    pub fn get_mut(&mut self, entity: Entity) -> (r: Option<&mut T>)
        requires
            old(self).wf(),
        ensures
            match r {
                Some(c) => {
                    &&& old(self).lookup(entity) == Some(*c)
                    &&& final(self).wf()
                    &&& (final(self).entity_seq(), final(self).component_seq()) == storage_insert(
                        old(self).entity_seq(),
                        old(self).component_seq(),
                        entity,
                        *final(c),
                    )
                },
                None => {
                    &&& old(self).lookup(entity) == None::<T>
                    &&& *final(self) == *old(self)
                },
            },
    {
        proof {
            self.lemma_slots();
        }
        match self.entity_to_index.get(&entity.0) {
            Some(index) => {
                let index = *index;
                proof {
                    assert(self.entities@[index as int] == entity);
                    lemma_index_unique(self.entities@, entity, index as int);
                }
                Some(&mut self.components[index])
            },
            None => {
                proof {
                    self.lemma_not_stored(entity);
                }
                None
            },
        }
    }

    pub fn get_entities(&self) -> (r: Vec<Entity>)
        ensures
            r@ == self.entity_seq(),
    {
        self.entities.clone()
    }

    /// Removes `entity`'s component by moving the last slot into its place.
    pub fn remove(&mut self, entity: Entity) -> (r: Option<T>)
        requires
            old(self).wf(),
        ensures
            final(self).wf(),
            r == old(self).lookup(entity),
            (final(self).entity_seq(), final(self).component_seq()) == storage_remove(
                old(self).entity_seq(),
                old(self).component_seq(),
                entity,
            ),
    {
        proof {
            self.lemma_slots();
        }
        let index = match self.entity_to_index.remove(&entity.0) {
            Some(i) => i,
            None => {
                proof {
                    old(self).lemma_not_stored(entity);
                }
                return None;
            },
        };
        let ghost old_idx = old(self).entity_to_index@;
        let ghost oe = old(self).entities@;
        proof {
            assert(oe[index as int] == entity);
            lemma_index_unique(oe, entity, index as int);
        }
        let last_index = self.components.len() - 1;
        let removed = self.components.swap_remove(index);
        self.entities.swap_remove(index);
        if index != last_index {
            let moved = self.entities[index];
            self.entity_to_index.insert(moved.0, index);
        }
        proof {
            assert forall|i: int| 0 <= i < self.entities.len() implies {
                &&& #[trigger] self.entity_to_index@.contains_key(self.entities@[i].0)
                &&& self.entity_to_index@[self.entities@[i].0] == i
            } by {
                if i != index {
                    assert(self.entities@[i] == oe[i]);
                    assert(old_idx.contains_key(oe[i].0));
                    assert(oe[i] != entity);
                } else {
                    assert(self.entities@[i] == oe[last_index as int]);
                }
            }
            assert forall|k: usize| #[trigger] self.entity_to_index@.contains_key(k) implies {
                &&& self.entity_to_index@[k] < self.entities.len()
                &&& self.entities@[self.entity_to_index@[k] as int].0 == k
            } by {
                if index != last_index && k == oe[last_index as int].0 {
                } else {
                    assert(old_idx.contains_key(k));
                    let j = old_idx[k] as int;
                    assert(oe[j].0 == k);
                    assert(j != index);
                    if j == last_index {
                        assert(oe[last_index as int].0 == k);
                    }
                }
            }
            assert(self.entities@ =~= oe.update(index as int, oe.last()).drop_last());
            assert(self.components@ =~= old(self).components@.update(
                index as int,
                old(self).components@.last(),
            ).drop_last());
        }
        Some(removed)
    }

    pub fn contains(&self, entity: Entity) -> (r: bool)
        requires
            self.wf(),
        ensures
            r == self.has(entity),
    {
        proof {
            self.lemma_slots();
        }
        let r = self.entity_to_index.contains_key(&entity.0);
        proof {
            if !r {
                self.lemma_not_stored(entity);
            }
        }
        r
    }

    /// Every stored entity paired with its component, in slot order.
    pub fn iter(&self) -> (r: Vec<(Entity, &T)>)
        requires
            self.wf(),
        ensures
            r.len() == self.entity_seq().len(),
            forall|i: int|
                0 <= i < r.len() ==> (#[trigger] r@[i]).0 == self.entity_seq()[i] && *r@[i].1
                    == self.component_seq()[i],
    {
        let mut out: Vec<(Entity, &T)> = Vec::new();
        let mut i: usize = 0;
        while i < self.entities.len()
            invariant
                self.wf(),
                i <= self.entities.len(),
                out.len() == i,
                forall|j: int|
                    0 <= j < i ==> (#[trigger] out@[j]).0 == self.entity_seq()[j] && *out@[j].1
                        == self.component_seq()[j],
            decreases self.entities.len() - i,
        {
            out.push((self.entities[i], &self.components[i]));
            i = i + 1;
        }
        out
    }

    /// Looking up the entity in slot `i` finds the component in slot `i`.
    pub proof fn lemma_lookup_at(&self, i: int)
        requires
            self.wf(),
            0 <= i < self.entity_seq().len(),
        ensures
            self.lookup(self.entity_seq()[i]) == Some(self.component_seq()[i]),
            self.entity_seq().index_of(self.entity_seq()[i]) == i,
    {
        self.lemma_slots();
        lemma_index_unique(self.entities@, self.entities@[i], i);
    }

    /// An entity that is found sits in some slot.
    pub proof fn lemma_found_in_slot(&self, e: Entity)
        requires
            self.wf(),
            self.has(e),
        ensures
            0 <= self.entity_seq().index_of(e) < self.entity_seq().len(),
            self.entity_seq()[self.entity_seq().index_of(e)] == e,
    {
    }

    /// The component in slot `i`.
    pub fn get_at(&self, i: usize) -> (r: &T)
        requires
            self.wf(),
            i < self.entity_seq().len(),
        ensures
            *r == self.component_seq()[i as int],
    {
        &self.components[i]
    }

    /// The entity in slot `i`.
    pub fn entity_at(&self, i: usize) -> (r: Entity)
        requires
            self.wf(),
            i < self.entity_seq().len(),
        ensures
            r == self.entity_seq()[i as int],
    {
        self.entities[i]
    }

    /// A mutable reference to the component in slot `i`; slots and the entity
    /// order are unchanged.
    pub fn get_at_mut(&mut self, i: usize) -> (r: &mut T)
        requires
            old(self).wf(),
            i < old(self).entity_seq().len(),
        ensures
            *r == old(self).component_seq()[i as int],
            final(self).wf(),
            final(self).entity_seq() == old(self).entity_seq(),
            final(self).component_seq() == old(self).component_seq().update(i as int, *final(r)),
    {
        &mut self.components[i]
    }

    pub fn entities(&self) -> (r: &[Entity])
        ensures
            r@ == self.entity_seq(),
    {
        self.entities.as_slice()
    }

    pub fn len(&self) -> (r: usize)
        requires
            self.wf(),
        ensures
            r == self.entity_seq().len(),
    {
        self.entities.len()
    }

    pub fn is_empty(&self) -> (r: bool)
        requires
            self.wf(),
        ensures
            r == (self.entity_seq().len() == 0),
    {
        self.entities.len() == 0
    }
}

impl<T> ComponentStorageTrait for ComponentStorage<T> {
    open spec fn storage_ok(&self) -> bool {
        self.wf()
    }

    fn remove_entity(&mut self, entity: Entity) -> (r: bool)
        ensures
            r == old(self).has(entity),
            (final(self).entity_seq(), final(self).component_seq()) == storage_remove(
                old(self).entity_seq(),
                old(self).component_seq(),
                entity,
            ),
    {
        proof {
            self.lemma_valid();
        }
        self.remove(entity).is_some()
    }
}

} // verus!

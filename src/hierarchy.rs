use vstd::prelude::*;

use crate::component_storage::{lemma_insert_keeps_others, lemma_insert_then_lookup, ComponentStorage};
use crate::entity::Entity;
use crate::world::without;

verus! {

/// The scene-graph part of a transform: its parent and its children, in the
/// order they were attached.
pub struct Hierarchy {
    pub parent: Option<Entity>,
    pub children: Vec<Entity>,
}

/// `s` with `c` appended unless it is already there.
pub open spec fn add_unique(s: Seq<Entity>, c: Entity) -> Seq<Entity> {
    if s.contains(c) {
        s
    } else {
        s.push(c)
    }
}

fn remove_all(v: &Vec<Entity>, e: Entity) -> (r: Vec<Entity>)
    ensures
        r@ == without(v@, e),
{
    let mut kept: Vec<Entity> = Vec::new();
    let mut i: usize = 0;
    while i < v.len()
        invariant
            i <= v.len(),
            kept@ == without(v@.take(i as int), e),
        decreases v.len() - i,
    {
        proof {
            let s1 = v@.take(i as int + 1);
            assert(s1.drop_last() =~= v@.take(i as int));
            assert(s1.last() == v@[i as int]);
        }
        if v[i] != e {
            kept.push(v[i]);
        }
        i = i + 1;
    }
    proof {
        assert(v@.take(v.len() as int) =~= v@);
    }
    kept
}

impl Hierarchy {
    /// A node with no parent and no children.
    pub fn new() -> (r: Self)
        ensures
            r.parent == None::<Entity>,
            r.children@ == Seq::<Entity>::empty(),
    {
        Hierarchy { parent: None, children: Vec::new() }
    }

    pub fn add_child(&mut self, child: Entity)
        ensures
            final(self).parent == old(self).parent,
            final(self).children@ == add_unique(old(self).children@, child),
    {
        let mut i: usize = 0;
        while i < self.children.len()
            invariant
                i <= self.children.len(),
                self.children@ == old(self).children@,
                self.parent == old(self).parent,
                forall|j: int| 0 <= j < i ==> self.children@[j] != child,
            decreases self.children.len() - i,
        {
            if self.children[i] == child {
                return;
            }
            i = i + 1;
        }
        self.children.push(child);
    }

    pub fn remove_child(&mut self, child: Entity)
        ensures
            final(self).parent == old(self).parent,
            final(self).children@ == without(old(self).children@, child),
    {
        self.children = remove_all(&self.children, child);
    }

    pub fn set_parent(&mut self, parent: Option<Entity>)
        ensures
            final(self).parent == parent,
            final(self).children@ == old(self).children@,
    {
        self.parent = parent;
    }

    pub fn get_children(&self) -> (r: &[Entity])
        ensures
            r@ == self.children@,
    {
        self.children.as_slice()
    }

    pub fn get_parent(&self) -> (r: Option<Entity>)
        ensures
            r == self.parent,
    {
        self.parent
    }

    pub fn has_parent(&self) -> (r: bool)
        ensures
            r == self.parent.is_some(),
    {
        self.parent.is_some()
    }

    pub fn has_children(&self) -> (r: bool)
        ensures
            r == (self.children@.len() > 0),
    {
        self.children.len() > 0
    }
}

/// `e`'s parent, if `e` has a node and the node has a parent.
pub open spec fn parent_of(nodes: ComponentStorage<Hierarchy>, e: Entity) -> Option<Entity> {
    match nodes.lookup(e) {
        Some(n) => n.parent,
        None => None,
    }
}

/// `e`'s children (none when `e` has no node).
pub open spec fn children_of(nodes: ComponentStorage<Hierarchy>, e: Entity) -> Seq<Entity> {
    match nodes.lookup(e) {
        Some(n) => n.children@,
        None => Seq::empty(),
    }
}

/// The descendants of `e` in depth-first pre-order, following at most `fuel` levels.
pub open spec fn descendants(nodes: ComponentStorage<Hierarchy>, e: Entity, fuel: nat) -> Seq<Entity>
    decreases fuel, 0nat,
{
    if fuel == 0 {
        Seq::empty()
    } else {
        descendants_of_list(nodes, children_of(nodes, e), (fuel - 1) as nat)
    }
}

/// Each of `cs` followed by its descendants, in order.
pub open spec fn descendants_of_list(nodes: ComponentStorage<Hierarchy>, cs: Seq<Entity>, fuel: nat) -> Seq<Entity>
    decreases fuel, cs.len(),
{
    if cs.len() == 0 {
        Seq::empty()
    } else {
        descendants_of_list(nodes, cs.drop_last(), fuel) + seq![cs.last()] + descendants(nodes, cs.last(), fuel)
    }
}

/// After replacing `e`'s node by `v`, only `e` looks different.
proof fn lemma_node_replaced(before: ComponentStorage<Hierarchy>, after: ComponentStorage<Hierarchy>, e: Entity, v: Hierarchy)
    requires
        before.wf(),
        before.has(e),
        (after.entity_seq(), after.component_seq()) == crate::component_storage::storage_insert(
            before.entity_seq(),
            before.component_seq(),
            e,
            v,
        ),
    ensures
        after.entity_seq() == before.entity_seq(),
        after.lookup(e) == Some(v),
        forall|x: Entity| x != e ==> #[trigger] after.lookup(x) == before.lookup(x),
{
    before.lemma_valid();
    lemma_insert_then_lookup(before.entity_seq(), before.component_seq(), e, v);
    assert forall|x: Entity| x != e implies #[trigger] after.lookup(x) == before.lookup(x) by {
        lemma_insert_keeps_others(before.entity_seq(), before.component_seq(), e, v, x);
    }
}

/// Sets `e`'s parent, if `e` has a node.
fn set_node_parent(nodes: &mut ComponentStorage<Hierarchy>, e: Entity, parent: Option<Entity>)
    requires
        old(nodes).wf(),
    ensures
        final(nodes).wf(),
        final(nodes).entity_seq() == old(nodes).entity_seq(),
        forall|x: Entity| #[trigger] parent_of(*final(nodes), x) == if x == e && old(nodes).has(x) {
            parent
        } else {
            parent_of(*old(nodes), x)
        },
        forall|x: Entity| #[trigger] children_of(*final(nodes), x) == children_of(*old(nodes), x),
{
    proof {
        old(nodes).lemma_valid();
    }
    let ghost before = *nodes;
    match nodes.get_mut(e) {
        Some(n) => {
            n.set_parent(parent);
            let ghost v = *n;
            proof {
                lemma_node_replaced(before, *nodes, e, v);
            }
        },
        None => {},
    }
}

/// Attaches `c` to (or detaches it from) `e`'s children, if `e` has a node.
fn edit_node_children(nodes: &mut ComponentStorage<Hierarchy>, e: Entity, c: Entity, attach: bool)
    requires
        old(nodes).wf(),
    ensures
        final(nodes).wf(),
        final(nodes).entity_seq() == old(nodes).entity_seq(),
        forall|x: Entity| #[trigger] parent_of(*final(nodes), x) == parent_of(*old(nodes), x),
        forall|x: Entity| #[trigger] children_of(*final(nodes), x) == if x == e && old(nodes).has(x) {
            if attach {
                add_unique(children_of(*old(nodes), x), c)
            } else {
                without(children_of(*old(nodes), x), c)
            }
        } else {
            children_of(*old(nodes), x)
        },
{
    proof {
        old(nodes).lemma_valid();
    }
    let ghost before = *nodes;
    match nodes.get_mut(e) {
        Some(n) => {
            if attach {
                n.add_child(c);
            } else {
                n.remove_child(c);
            }
            let ghost v = *n;
            proof {
                lemma_node_replaced(before, *nodes, e, v);
            }
        },
        None => {},
    }
}

/// Keeps parent and child links of `Hierarchy` nodes consistent.
pub struct HierarchySystem;

impl HierarchySystem {
    pub fn new() -> (r: Self) {
        HierarchySystem
    }

    /// Detaches `child` from `parent`: drops it from `parent`'s children and
    /// clears its parent link.
    pub fn remove_child(&self, nodes: &mut ComponentStorage<Hierarchy>, parent: Entity, child: Entity)
        requires
            old(nodes).wf(),
        ensures
            final(nodes).wf(),
            final(nodes).entity_seq() == old(nodes).entity_seq(),
            forall|x: Entity| #[trigger] children_of(*final(nodes), x) == if x == parent && old(nodes).has(x) {
                without(children_of(*old(nodes), x), child)
            } else {
                children_of(*old(nodes), x)
            },
            forall|x: Entity| #[trigger] parent_of(*final(nodes), x) == if x == child && old(nodes).has(x) {
                None
            } else {
                parent_of(*old(nodes), x)
            },
    {
        edit_node_children(nodes, parent, child, false);
        set_node_parent(nodes, child, None);
    }

    /// Makes `child` a child of `parent`, first detaching it from its old parent.
    pub fn add_child(&self, nodes: &mut ComponentStorage<Hierarchy>, parent: Entity, child: Entity)
        requires
            old(nodes).wf(),
        ensures
            final(nodes).wf(),
            final(nodes).entity_seq() == old(nodes).entity_seq(),
            forall|x: Entity| #[trigger] parent_of(*final(nodes), x) == if x == child && old(nodes).has(x) {
                Some(parent)
            } else {
                parent_of(*old(nodes), x)
            },
            forall|x: Entity| #[trigger] children_of(*final(nodes), x) == {
                let detached = if old(nodes).has(child) && parent_of(*old(nodes), child) == Some(x) && old(nodes).has(x) {
                    without(children_of(*old(nodes), x), child)
                } else {
                    children_of(*old(nodes), x)
                };
                if x == parent && old(nodes).has(x) {
                    add_unique(detached, child)
                } else {
                    detached
                }
            },
    {
        let old_parent = match nodes.get(child) {
            Some(n) => n.parent,
            None => None,
        };
        match old_parent {
            Some(p) => self.remove_child(nodes, p, child),
            None => {},
        }
        set_node_parent(nodes, child, Some(parent));
        edit_node_children(nodes, parent, child, true);
    }

    fn collect_descendants(&self, nodes: &ComponentStorage<Hierarchy>, entity: Entity, fuel: usize, out: &mut Vec<Entity>)
        requires
            nodes.wf(),
        ensures
            final(out)@ == old(out)@ + descendants(*nodes, entity, fuel as nat),
        decreases fuel,
    {
        if fuel == 0 {
            proof {
                assert(old(out)@ + descendants(*nodes, entity, 0) =~= old(out)@);
            }
            return;
        }
        match nodes.get(entity) {
            Some(n) => {
                let cs = &n.children;
                let mut i: usize = 0;
                proof {
                    assert(cs@.take(0) =~= Seq::<Entity>::empty());
                    assert(out@ =~= old(out)@ + descendants_of_list(*nodes, cs@.take(0), (fuel - 1) as nat));
                }
                while i < cs.len()
                    invariant
                        nodes.wf(),
                        fuel > 0,
                        cs@ == children_of(*nodes, entity),
                        i <= cs.len(),
                        out@ == old(out)@ + descendants_of_list(*nodes, cs@.take(i as int), (fuel - 1) as nat),
                    decreases cs.len() - i,
                {
                    let c = cs[i];
                    proof {
                        let t = cs@.take(i as int + 1);
                        assert(t.drop_last() =~= cs@.take(i as int));
                        assert(t.last() == c);
                    }
                    out.push(c);
                    self.collect_descendants(nodes, c, fuel - 1, out);
                    proof {
                        assert(out@ =~= old(out)@ + descendants_of_list(*nodes, cs@.take(i as int + 1), (fuel - 1) as nat));
                    }
                    i = i + 1;
                }
                proof {
                    assert(cs@.take(cs.len() as int) =~= cs@);
                }
            },
            None => {
                proof {
                    assert(children_of(*nodes, entity) =~= Seq::<Entity>::empty());
                    assert(old(out)@ + descendants(*nodes, entity, fuel as nat) =~= old(out)@);
                }
            },
        }
    }

    /// Every descendant of `entity`, depth first, children in attach order. A
    /// hierarchy with a cycle is cut off after as many levels as there are nodes.
    pub fn get_descendants(&self, nodes: &ComponentStorage<Hierarchy>, entity: Entity) -> (r: Vec<Entity>)
        requires
            nodes.wf(),
        ensures
            r@ == descendants(*nodes, entity, nodes.entity_seq().len()),
    {
        let mut out: Vec<Entity> = Vec::new();
        self.collect_descendants(nodes, entity, nodes.len(), &mut out);
        proof {
            assert(out@ =~= descendants(*nodes, entity, nodes.entity_seq().len()));
        }
        out
    }

    /// The chain of ancestors from the root down to `entity` (included). A
    /// hierarchy with a cycle is cut off after as many steps as there are nodes.
    pub fn get_path_to_root(&self, nodes: &ComponentStorage<Hierarchy>, entity: Entity) -> (r: Vec<Entity>)
        requires
            nodes.wf(),
        ensures
            r@.len() >= 1,
            r@.last() == entity,
            forall|i: int| 0 <= i < r@.len() - 1 ==> parent_of(*nodes, #[trigger] r@[i + 1]) == Some(r@[i]),
            parent_of(*nodes, r@[0]) is None || r@.len() == nodes.entity_seq().len() + 1,
    {
        let mut up: Vec<Entity> = Vec::new();
        up.push(entity);
        let mut current = entity;
        let limit = nodes.len();
        let mut steps: usize = 0;
        let mut at_root = false;
        while steps < limit && !at_root
            invariant
                nodes.wf(),
                at_root ==> parent_of(*nodes, current) is None,
                limit == nodes.entity_seq().len(),
                steps <= limit,
                up@.len() == steps + 1,
                up@[0] == entity,
                up@.last() == current,
                forall|i: int| 0 <= i < up@.len() - 1 ==> parent_of(*nodes, #[trigger] up@[i]) == Some(up@[i + 1]),
            decreases (limit - steps) * 2 + if at_root { 0int } else { 1int },
        {
            let parent = match nodes.get(current) {
                Some(n) => n.parent,
                None => None,
            };
            match parent {
                Some(p) => {
                    up.push(p);
                    current = p;
                    steps = steps + 1;
                },
                None => {
                    at_root = true;
                },
            }
        }
        let mut path: Vec<Entity> = Vec::new();
        let n = up.len();
        let mut k: usize = n;
        while k > 0
            invariant
                k <= n,
                n == up@.len(),
                path@.len() == n - k,
                forall|j: int| 0 <= j < n - k ==> #[trigger] path@[j] == up@[n - 1 - j],
            decreases k,
        {
            path.push(up[k - 1]);
            k = k - 1;
        }
        proof {
            assert forall|i: int| 0 <= i < path@.len() - 1 implies parent_of(*nodes, #[trigger] path@[i + 1]) == Some(path@[i]) by {
                assert(path@[i + 1] == up@[n - 2 - i]);
                assert(path@[i] == up@[n - 1 - i]);
            }
        }
        path
    }
}

/// The nodes of `es` without a parent, each followed by its descendants.
pub open spec fn update_sequence(nodes: ComponentStorage<Hierarchy>, es: Seq<Entity>, fuel: nat) -> Seq<Entity>
    decreases es.len(),
{
    if es.len() == 0 {
        Seq::empty()
    } else {
        let rest = update_sequence(nodes, es.drop_last(), fuel);
        if parent_of(nodes, es.last()) is None {
            rest + seq![es.last()] + descendants(nodes, es.last(), fuel)
        } else {
            rest
        }
    }
}

/// Decides the order in which world matrices are refreshed: each root, then
/// the nodes below it.
pub struct TransformSystem;

impl TransformSystem {
    pub fn new() -> (r: Self) {
        TransformSystem
    }

    /// Every root node (one without a parent) in storage order, each followed
    /// by its descendants depth first.
    pub fn update_order(&self, nodes: &ComponentStorage<Hierarchy>) -> (r: Vec<Entity>)
        requires
            nodes.wf(),
        ensures
            r@ == update_sequence(*nodes, nodes.entity_seq(), nodes.entity_seq().len()),
    {
        let hierarchy = HierarchySystem::new();
        let n = nodes.len();
        let mut out: Vec<Entity> = Vec::new();
        let mut i: usize = 0;
        proof {
            nodes.lemma_valid();
            assert(nodes.entity_seq().take(0) =~= Seq::<Entity>::empty());
        }
        while i < n
            invariant
                nodes.wf(),
                n == nodes.entity_seq().len(),
                n == nodes.component_seq().len(),
                i <= n,
                out@ == update_sequence(*nodes, nodes.entity_seq().take(i as int), n as nat),
            decreases n - i,
        {
            let e = nodes.entity_at(i);
            proof {
                let t = nodes.entity_seq().take(i as int + 1);
                assert(t.drop_last() =~= nodes.entity_seq().take(i as int));
                assert(t.last() == e);
                nodes.lemma_lookup_at(i as int);
            }
            if nodes.get_at(i).parent.is_none() {
                out.push(e);
                let below = hierarchy.get_descendants(nodes, e);
                let mut k: usize = 0;
                let ghost base = out@;
                while k < below.len()
                    invariant
                        k <= below.len(),
                        out@ == base + below@.take(k as int),
                    decreases below.len() - k,
                {
                    out.push(below[k]);
                    k = k + 1;
                    assert(out@ =~= base + below@.take(k as int));
                }
                proof {
                    assert(below@.take(below.len() as int) =~= below@);
                }
            }
            i = i + 1;
        }
        proof {
            assert(nodes.entity_seq().take(n as int) =~= nodes.entity_seq());
        }
        out
    }
}

} // verus!

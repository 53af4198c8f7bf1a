use vstd::prelude::*;

verus! {

/// An opaque entity identifier. Two entities are equal exactly when their ids are.
#[derive(Debug, Clone, Copy, PartialEq, Eq, Hash, Structural)]
pub struct Entity(pub usize);

impl Entity {
    pub fn new(id: usize) -> (r: Entity)
        ensures
            r.0 == id,
    {
        Entity(id)
    }

    pub fn id(&self) -> (r: usize)
        ensures
            r == self.0,
    {
        self.0
    }
}

/// Hands out entity identifiers from a monotonically increasing counter; an id
/// is never handed out twice.
pub struct EntityRegistry {
    next: usize,
}

impl EntityRegistry {
    pub closed spec fn next_id(&self) -> nat {
        self.next as nat
    }

    pub fn new() -> (r: EntityRegistry)
        ensures
            r.next_id() == 0,
    {
        EntityRegistry { next: 0 }
    }

    /// True while another identifier can still be handed out.
    pub fn can_allocate(&self) -> (r: bool)
        ensures
            r == (self.next_id() < usize::MAX),
    {
        self.next < usize::MAX
    }

    pub fn new_entity(&mut self) -> (e: Entity)
        requires
            old(self).next_id() < usize::MAX,
        ensures
            e.0 == old(self).next_id(),
            final(self).next_id() == old(self).next_id() + 1,
    {
        let e = Entity(self.next);
        self.next = self.next + 1;
        e
    }
}

} // verus!

//! The entity store: slots of components addressed by generation-tagged
//! handles, with deletion deferred to a safe point.
use crate::components::Components;
use vstd::prelude::*;

verus! {

/// A handle to an entity. A slot that is freed and reused gets a higher
/// generation, so an old handle never names the new occupant.
#[derive(Clone, Copy, Debug, PartialEq, Eq, Structural)]
pub struct Entity {
    pub index: usize,
    pub generation: u64,
}

/// One place in the store.
#[derive(Clone, Copy, Debug, PartialEq, Eq, Structural)]
pub struct Slot {
    pub generation: u64,
    pub alive: bool,
    pub parts: Components,
}

/// The slot left behind when an entity is removed.
pub open spec fn emptied(s: Slot) -> Slot {
    Slot { generation: s.generation, alive: false, parts: Components::none() }
}

/// Some handle of `r` names slot `j`.
pub open spec fn names_slot(r: Seq<Entity>, j: int) -> bool {
    exists|k: int| 0 <= k < r.len() && #[trigger] r[k].index == j
}

/// No two handles of `r` name the same slot.
pub open spec fn distinct_slots(r: Seq<Entity>) -> bool {
    forall|a: int, b: int| 0 <= a < b < r.len() ==> (#[trigger] r[a]).index != (#[trigger] r[b]).index
}

/// `w1` differs from `w0` only in the slots named by `r`, and has no
/// other slots besides.
pub open spec fn only_slots_changed(w0: World, w1: World, r: Seq<Entity>) -> bool {
    &&& distinct_slots(r)
    &&& r.no_duplicates()
    &&& w1.slots().len() <= w0.slots().len() + r.len()
    &&& w1.slots().len() >= w0.slots().len()
    &&& forall|j: int|
        0 <= j < w1.slots().len() && !names_slot(r, j) ==> j < w0.slots().len() && #[trigger] w1.slots()[j]
            == w0.slots()[j]
}

/// `w1` is `w0` after its pending deletions were carried out.
pub open spec fn swept(w0: World, w1: World) -> bool {
    &&& w1.doomed().len() == 0
    &&& w1.slots().len() == w0.slots().len()
    &&& forall|i: int|
        0 <= i < w0.slots().len() ==> #[trigger] w1.slots()[i] == if w0.slots()[i].alive
            && w0.marked(i) {
            emptied(w0.slots()[i])
        } else {
            w0.slots()[i]
        }
}

/// The entities of one simulation and their components.
#[derive(Debug)]
pub struct World {
    slots: Vec<Slot>,
    doomed: Vec<Entity>,
}

impl World {
    /// The slots, by index.
    pub closed spec fn slots(&self) -> Seq<Slot> {
        self.slots@
    }

    /// Deletions requested since the last `maintain`.
    pub closed spec fn doomed(&self) -> Seq<Entity> {
        self.doomed@
    }

    /// `e` names a live entity.
    pub open spec fn live(&self, e: Entity) -> bool {
        &&& e.index < self.slots().len()
        &&& self.slots()[e.index as int].alive
        &&& self.slots()[e.index as int].generation == e.generation
    }

    /// The components of the entity in slot `e.index`.
    pub open spec fn parts_of(&self, e: Entity) -> Components {
        self.slots()[e.index as int].parts
    }

    /// The handle of the live entity in slot `i`.
    pub open spec fn handle(&self, i: int) -> Entity {
        Entity { index: i as usize, generation: self.slots()[i].generation }
    }

    /// A deletion of the entity in slot `i` is pending.
    pub open spec fn marked(&self, i: int) -> bool {
        exists|k: int| 0 <= k < self.doomed().len() && #[trigger] self.doomed()[k] == self.handle(i)
    }

    /// An empty world.
    pub fn new() -> (r: World)
        ensures
            r.slots().len() == 0,
            r.doomed().len() == 0,
    {
        World { slots: Vec::new(), doomed: Vec::new() }
    }

    /// The number of slots.
    pub fn len(&self) -> (r: usize)
        ensures
            r == self.slots().len(),
    {
        self.slots.len()
    }

    /// The slot at `i`.
    pub fn slot(&self, i: usize) -> (r: Slot)
        requires
            i < self.slots().len(),
        ensures
            r == self.slots()[i as int],
    {
        self.slots[i]
    }

    /// The handle of the entity in slot `i`, if one lives there.
    pub fn entity_at(&self, i: usize) -> (r: Option<Entity>)
        requires
            i < self.slots().len(),
        ensures
            r == (if self.slots()[i as int].alive {
                Some(self.handle(i as int))
            } else {
                None
            }),
    {
        let s = self.slots[i];
        if s.alive {
            Some(Entity { index: i, generation: s.generation })
        } else {
            None
        }
    }

    /// Whether `e` names a live entity.
    pub fn is_alive(&self, e: Entity) -> (r: bool)
        ensures
            r == self.live(e),
    {
        if e.index < self.slots.len() {
            let s = self.slots[e.index];
            s.alive && s.generation == e.generation
        } else {
            false
        }
    }

    /// The components of `e`, if it is live.
    pub fn get(&self, e: Entity) -> (r: Option<Components>)
        ensures
            r == (if self.live(e) {
                Some(self.parts_of(e))
            } else {
                None
            }),
    {
        if self.is_alive(e) {
            Some(self.slots[e.index].parts)
        } else {
            None
        }
    }

    /// Replaces the components held in slot `i`.
    pub fn set_parts(&mut self, i: usize, parts: Components)
        requires
            i < old(self).slots().len(),
        ensures
            final(self).slots() == old(self).slots().update(
                i as int,
                Slot { parts, ..old(self).slots()[i as int] },
            ),
            final(self).doomed() == old(self).doomed(),
    {
        let s = self.slots[i];
        self.slots.set(i, Slot { parts, ..s });
    }

    /// Replaces the components of `e`; does nothing when `e` is not live.
    pub fn set(&mut self, e: Entity, parts: Components)
        ensures
            old(self).live(e) ==> final(self).slots() == old(self).slots().update(
                e.index as int,
                Slot { parts, ..old(self).slots()[e.index as int] },
            ),
            !old(self).live(e) ==> final(self).slots() == old(self).slots(),
            final(self).doomed() == old(self).doomed(),
    {
        if self.is_alive(e) {
            self.set_parts(e.index, parts);
        }
    }

    /// Adds an entity with the given components. A free slot whose
    /// generation can still grow is reused with its generation raised by
    /// one; otherwise a new slot is appended.
    pub fn create(&mut self, parts: Components) -> (e: Entity)
        requires
            old(self).slots().len() < usize::MAX,
        ensures
            !old(self).live(e),
            final(self).live(e),
            final(self).parts_of(e) == parts,
            final(self).doomed() == old(self).doomed(),
            e.index < old(self).slots().len() ==> {
                &&& final(self).slots().len() == old(self).slots().len()
                &&& !old(self).slots()[e.index as int].alive
                &&& e.generation == old(self).slots()[e.index as int].generation + 1
            },
            e.index >= old(self).slots().len() ==> {
                &&& e.index == old(self).slots().len()
                &&& final(self).slots().len() == old(self).slots().len() + 1
                &&& e.generation == 0
            },
            forall|j: int|
                0 <= j < old(self).slots().len() && j != e.index ==> final(self).slots()[j]
                    == old(self).slots()[j],
    {
        let mut i: usize = 0;
        while i < self.slots.len()
            invariant
                self.slots@ == old(self).slots@,
                self.doomed@ == old(self).doomed@,
                0 <= i <= self.slots@.len(),
                forall|k: int|
                    0 <= k < i ==> (#[trigger] self.slots@[k]).alive || self.slots@[k].generation
                        == u64::MAX,
            decreases self.slots@.len() - i,
        {
            let s = self.slots[i];
            if !s.alive && s.generation < u64::MAX {
                let e = Entity { index: i, generation: s.generation + 1 };
                self.slots.set(i, Slot { generation: e.generation, alive: true, parts });
                return e;
            }
            i += 1;
        }
        let e = Entity { index: self.slots.len(), generation: 0 };
        self.slots.push(Slot { generation: 0, alive: true, parts });
        e
    }

    /// Asks for `e` to be removed at the next `maintain`; until then it
    /// stays live.
    pub fn delete(&mut self, e: Entity)
        ensures
            final(self).slots() == old(self).slots(),
            final(self).doomed() == old(self).doomed().push(e),
    {
        self.doomed.push(e);
    }

    /// Carries out the pending deletions: each live entity named by one of
    /// them loses its components and its slot becomes free.
    pub fn maintain(&mut self)
        ensures
            swept(*old(self), *final(self)),
    {
        let ghost orig = self.slots@;
        let ghost doomed = self.doomed@;
        let mut k: usize = 0;
        while k < self.doomed.len()
            invariant
                self.doomed@ == doomed,
                doomed == old(self).doomed(),
                orig == old(self).slots(),
                0 <= k <= doomed.len(),
                self.slots@.len() == orig.len(),
                forall|i: int|
                    0 <= i < orig.len() ==> #[trigger] self.slots@[i] == if orig[i].alive && exists|
                        m: int,
                    |
                        0 <= m < k && #[trigger] doomed[m] == (Entity {
                            index: i as usize,
                            generation: orig[i].generation,
                        }) {
                        emptied(orig[i])
                    } else {
                        orig[i]
                    },
            decreases doomed.len() - k,
        {
            let e = self.doomed[k];
            if e.index < self.slots.len() {
                let s = self.slots[e.index];
                if s.alive && s.generation == e.generation {
                    self.slots.set(
                        e.index,
                        Slot { generation: s.generation, alive: false, parts: Components::empty() },
                    );
                }
            }
            k += 1;
        }
        self.doomed = Vec::new();
    }
}

} // verus!

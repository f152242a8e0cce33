//! Entity identity: unique, reusable identifiers with generation tagging.
//!
//! An [`Entity`] names a slot by index; the generation disambiguates reuse of
//! a freed slot, so that a stale copy of a destroyed entity can never pass
//! for the slot's next occupant.

use vstd::prelude::*;

verus! {

/// Opaque identifier for a game object: a slot index and the generation the
/// slot had when the identifier was issued.
#[derive(Clone, Copy, Debug, PartialEq, Eq, Structural)]
pub struct Entity {
    pub index: usize,
    pub generation: u64,
}

/// The error kinds of the storage core.
#[derive(Clone, Copy, Debug, PartialEq, Eq, Structural)]
pub enum EcsError {
    /// The operation referenced an entity whose generation no longer matches
    /// its slot: the entity was destroyed (a caller bug or a diffed-out
    /// entity), never fatal.
    StaleEntity,
    /// A configured maximum slot count was reached; fatal to the requested
    /// operation, not the process.
    ResourceExhausted,
}

/// Issues entities and tracks which are live. Owns one generation counter
/// per slot (incremented when the slot is freed) and a free list of
/// reusable slot indices.
pub struct EntityAllocator {
    generations: Vec<u64>,
    alive: Vec<bool>,
    free: Vec<usize>,
    cap: Option<usize>,
}

impl EntityAllocator {
    /// Current generation of each slot.
    pub closed spec fn gens(self) -> Seq<u64> {
        self.generations@
    }

    /// Whether each slot currently backs a live entity.
    pub closed spec fn alive_map(self) -> Seq<bool> {
        self.alive@
    }

    /// The configured slot cap, if any.
    pub closed spec fn spec_cap(self) -> Option<usize> {
        self.cap
    }

    /// Number of slots ever allocated.
    pub open spec fn slot_count(self) -> int {
        self.gens().len() as int
    }

    /// `e` is live: its slot exists, is occupied, and still carries the
    /// generation `e` was issued with.
    pub open spec fn spec_is_live(self, e: Entity) -> bool {
        &&& (e.index as int) < self.slot_count()
        &&& self.alive_map()[e.index as int]
        &&& self.gens()[e.index as int] == e.generation
    }

    /// Internal consistency: the free list points at dead, reusable slots,
    /// without duplicates; occupied and reusable slots can still bump their
    /// generation; a configured cap bounds the slot count.
    pub closed spec fn wf(self) -> bool {
        &&& self.alive@.len() == self.generations@.len()
        &&& forall|j: int|
            0 <= j < self.free@.len() ==> (#[trigger] self.free@[j]) < self.generations@.len()
                && !self.alive@[self.free@[j] as int]
                && self.generations@[self.free@[j] as int] < u64::MAX
        &&& forall|j: int, k: int|
            0 <= j < k < self.free@.len() ==> #[trigger] self.free@[j] != #[trigger] self.free@[k]
        &&& forall|i: int|
            0 <= i < self.generations@.len() && self.alive@[i]
                ==> #[trigger] self.generations@[i] < u64::MAX
        &&& match self.cap {
            Some(c) => self.generations@.len() <= c,
            None => true,
        }
    }

    /// The allocator can issue no further entity: every slot is occupied and
    /// the configured cap is reached.
    pub open spec fn at_capacity(self) -> bool {
        match self.spec_cap() {
            Some(c) => self.free_len() == 0 && self.slot_count() >= c,
            None => false,
        }
    }

    /// Length of the free list.
    pub closed spec fn free_len(self) -> int {
        self.free@.len() as int
    }

    /// A fresh allocator without a slot cap.
    pub fn new() -> (r: EntityAllocator)
        ensures
            r.wf(),
            r.slot_count() == 0,
            r.free_len() == 0,
            r.spec_cap() == Option::<usize>::None,
    {
        EntityAllocator { generations: Vec::new(), alive: Vec::new(), free: Vec::new(), cap: None }
    }

    /// A fresh allocator that will never hold more than `max_slots` slots.
    pub fn with_limit(max_slots: usize) -> (r: EntityAllocator)
        ensures
            r.wf(),
            r.slot_count() == 0,
            r.free_len() == 0,
            r.spec_cap() == Some(max_slots),
    {
        EntityAllocator {
            generations: Vec::new(),
            alive: Vec::new(),
            free: Vec::new(),
            cap: Some(max_slots),
        }
    }

    /// Issues an entity: reuses a freed slot (keeping the generation it was
    /// bumped to when freed) or appends a new slot at generation zero. Fails
    /// with `ResourceExhausted` exactly when the configured cap is reached
    /// and no slot is free.
    pub fn create(&mut self) -> (r: Result<Entity, EcsError>)
        requires
            old(self).wf(),
        ensures
            final(self).wf(),
            final(self).spec_cap() == old(self).spec_cap(),
            r is Err <==> old(self).at_capacity(),
            match r {
                Ok(e) => {
                    &&& final(self).spec_is_live(e)
                    &&& !old(self).spec_is_live(e)
                    &&& e.generation == final(self).gens()[e.index as int]
                    &&& e.generation < u64::MAX
                    &&& old(self).slot_count() <= final(self).slot_count() <= old(self).slot_count() + 1
                    &&& final(self).slot_count() > old(self).slot_count() ==> e.generation == 0
                        && e.index as int == old(self).slot_count()
                    &&& old(self).free_len() > 0 ==> final(self).free_len() == old(self).free_len()
                        - 1 && final(self).slot_count() == old(self).slot_count()
                    &&& old(self).free_len() == 0 ==> final(self).free_len() == 0
                        && final(self).slot_count() == old(self).slot_count() + 1
                    &&& forall|i: int|
                        0 <= i < old(self).slot_count()
                            ==> final(self).gens()[i] == old(self).gens()[i]
                    &&& forall|e2: Entity|
                        e2.index != e.index
                            ==> (final(self).spec_is_live(e2) <==> old(self).spec_is_live(e2))
                },
                Err(err) => {
                    &&& err == EcsError::ResourceExhausted
                    &&& *final(self) == *old(self)
                },
            },
    {
        if self.free.len() > 0 {
            let i = self.free.pop().unwrap();
            self.alive[i] = true;
            let e = Entity { index: i, generation: self.generations[i] };
            assert(forall|j: int|
                0 <= j < self.free@.len() ==> old(self).free@[j] == #[trigger] self.free@[j]);
            Ok(e)
        } else {
            let at_cap = match self.cap {
                Some(c) => self.generations.len() >= c,
                None => false,
            };
            if at_cap {
                return Err(EcsError::ResourceExhausted);
            }
            let i = self.generations.len();
            self.generations.push(0);
            self.alive.push(true);
            Ok(Entity { index: i, generation: 0 })
        }
    }

    /// Destroys `e`: fails with `StaleEntity` exactly when `e` is not live;
    /// otherwise bumps the slot's generation (invalidating every outstanding
    /// copy of `e`) and returns the slot to the free list, where `create`
    /// can reuse it. A slot whose generation would reach the numeric limit
    /// is retired instead of freed, so the limit is never exceeded.
    pub fn destroy(&mut self, e: Entity) -> (r: Result<(), EcsError>)
        requires
            old(self).wf(),
        ensures
            final(self).wf(),
            final(self).spec_cap() == old(self).spec_cap(),
            r is Ok <==> old(self).spec_is_live(e),
            match r {
                Ok(()) => {
                    &&& final(self).slot_count() == old(self).slot_count()
                    &&& final(self).gens()[e.index as int] == e.generation + 1
                    &&& forall|i: int|
                        0 <= i < old(self).slot_count() && i != e.index as int
                            ==> final(self).gens()[i] == old(self).gens()[i]
                    &&& forall|e2: Entity| e2.index == e.index ==> !final(self).spec_is_live(e2)
                    &&& forall|e2: Entity|
                        e2.index != e.index
                            ==> (final(self).spec_is_live(e2) <==> old(self).spec_is_live(e2))
                    &&& e.generation + 1 < u64::MAX ==> final(self).free_len() == old(
                        self,
                    ).free_len() + 1
                    &&& e.generation + 1 == u64::MAX ==> final(self).free_len() == old(
                        self,
                    ).free_len()
                },
                Err(err) => {
                    &&& err == EcsError::StaleEntity
                    &&& *final(self) == *old(self)
                },
            },
    {
        if e.index >= self.generations.len() || !self.alive[e.index]
            || self.generations[e.index] != e.generation {
            return Err(EcsError::StaleEntity);
        }
        let new_gen = self.generations[e.index] + 1;
        self.generations[e.index] = new_gen;
        self.alive[e.index] = false;
        if new_gen < u64::MAX {
            self.free.push(e.index);
        }
        Ok(())
    }

    /// Whether `e` is currently live; a pure query with no failure mode.
    pub fn is_live(&self, e: Entity) -> (r: bool)
        requires
            self.wf(),
        ensures
            r == self.spec_is_live(e),
    {
        e.index < self.generations.len() && self.alive[e.index]
            && self.generations[e.index] == e.generation
    }

    /// A snapshot of all currently live entities, in increasing slot order
    /// (stable for a given allocator state). Mutations of the allocator do
    /// not affect a snapshot already taken.
    pub fn live_entities(&self) -> (r: Vec<Entity>)
        requires
            self.wf(),
        ensures
            forall|j: int| 0 <= j < r@.len() ==> self.spec_is_live(#[trigger] r@[j]),
            forall|e: Entity| self.spec_is_live(e) ==> r@.contains(e),
            forall|j: int, k: int| 0 <= j < k < r@.len() ==> r@[j].index < r@[k].index,
    {
        let mut out: Vec<Entity> = Vec::new();
        let n = self.generations.len();
        let mut i: usize = 0;
        while i < n
            invariant
                n == self.slot_count(),
                self.alive@.len() == self.generations@.len(),
                i <= n,
                forall|j: int| 0 <= j < out@.len() ==> self.spec_is_live(#[trigger] out@[j]),
                forall|j: int| 0 <= j < out@.len() ==> (#[trigger] out@[j]).index < i,
                forall|e: Entity|
                    self.spec_is_live(e) && (e.index as int) < i ==> out@.contains(e),
                forall|j: int, k: int| 0 <= j < k < out@.len() ==> out@[j].index < out@[k].index,
            decreases n - i,
        {
            if self.alive[i] {
                let e = Entity { index: i, generation: self.generations[i] };
                let ghost prev_out = out@;
                out.push(e);
                proof {
                    assert forall|e2: Entity|
                        self.spec_is_live(e2) && (e2.index as int) < i + 1 implies out@.contains(
                        e2,
                    ) by {
                        if (e2.index as int) < i {
                            let j = choose|j: int| 0 <= j < prev_out.len() && prev_out[j] == e2;
                            assert(out@[j] == e2);
                        } else {
                            assert(e2 == e);
                            assert(out@[prev_out.len() as int] == e);
                        }
                    }
                }
            }
            i += 1;
        }
        out
    }
}

/// Generation tagging detects reuse: while any entity `e_new` occupies the
/// slot an earlier entity `e_old` named after that slot's generation moved
/// past `e_old`'s, the two identifiers differ and `e_old` is not live — a
/// stale identifier can never silently alias the slot's next occupant.
pub proof fn lemma_generation_reuse_detected(a: EntityAllocator, e_old: Entity, e_new: Entity)
    requires
        a.spec_is_live(e_new),
        e_new.index == e_old.index,
        a.gens()[e_old.index as int] > e_old.generation,
    ensures
        e_new != e_old,
        !a.spec_is_live(e_old),
{
}

} // verus!

//! Per-type component storage: a sparse mapping from entity index to an
//! optional component value, restricted by the allocator's liveness so that
//! a stale entity can never read or write the slot's next occupant's data.

use vstd::prelude::*;
use crate::entity::EcsError;
use crate::entity::Entity;
use crate::entity::EntityAllocator;

verus! {

/// One store per component type; the view is the sequence of optional
/// values by entity index.
pub struct ComponentStore<T> {
    data: Vec<Option<T>>,
}

impl<T> View for ComponentStore<T> {
    type V = Seq<Option<T>>;

    closed spec fn view(&self) -> Seq<Option<T>> {
        self.data@
    }
}

impl<T> ComponentStore<T> {
    /// A fresh, empty store.
    pub fn new() -> (r: ComponentStore<T>)
        ensures
            r@.len() == 0,
    {
        ComponentStore { data: Vec::new() }
    }

    /// The entry the store holds at index `i`, absent entries and indices
    /// beyond the store's extent alike reading as `None`.
    pub open spec fn entry(self, i: int) -> Option<T> {
        if 0 <= i < self@.len() {
            self@[i]
        } else {
            None
        }
    }

    /// Upsert: stores `value` for `e` and returns the value it replaces, or
    /// fails with `StaleEntity` exactly when `e` is not live.
    pub fn insert(&mut self, allocator: &EntityAllocator, e: Entity, value: T) -> (r: Result<
        Option<T>,
        EcsError,
    >)
        requires
            allocator.wf(),
        ensures
            r is Ok <==> allocator.spec_is_live(e),
            match r {
                Ok(prev) => {
                    &&& final(self).entry(e.index as int) == Some(value)
                    &&& prev == old(self).entry(e.index as int)
                    &&& forall|i: int|
                        i != e.index as int ==> final(self).entry(i) == old(self).entry(i)
                },
                Err(err) => {
                    &&& err == EcsError::StaleEntity
                    &&& final(self)@ == old(self)@
                },
            },
    {
        if !allocator.is_live(e) {
            return Err(EcsError::StaleEntity);
        }
        while self.data.len() <= e.index
            invariant
                forall|i: int| 0 <= i < self@.len() ==> old(self).entry(i) == #[trigger] self@[i],
                old(self)@.len() <= self@.len(),
            decreases e.index + 1 - self.data.len(),
        {
            self.data.push(None);
        }
        let prev = self.data.remove(e.index);
        self.data.insert(e.index, Some(value));
        Ok(prev)
    }

    /// Returns and clears the value stored for `e`'s index, or `None` if
    /// there is none. Deliberately does not check liveness: clearing a dead
    /// entity's slot is harmless and is what destruction cleanup does.
    pub fn remove(&mut self, e: Entity) -> (r: Option<T>)
        ensures
            r == old(self).entry(e.index as int),
            final(self).entry(e.index as int) is None,
            final(self)@.len() == old(self)@.len(),
            forall|i: int| i != e.index as int ==> final(self).entry(i) == old(self).entry(i),
    {
        if e.index < self.data.len() {
            let prev = self.data.remove(e.index);
            self.data.insert(e.index, None);
            prev
        } else {
            None
        }
    }

    /// Read lookup: a value comes back exactly when `e` is live and a value
    /// was inserted for `e`'s index and not since removed.
    pub fn get(&self, allocator: &EntityAllocator, e: Entity) -> (r: Option<&T>)
        requires
            allocator.wf(),
        ensures
            match r {
                Some(v) => allocator.spec_is_live(e) && self.entry(e.index as int) == Some(*v),
                None => !allocator.spec_is_live(e) || self.entry(e.index as int) is None,
            },
    {
        if !allocator.is_live(e) {
            return None;
        }
        if e.index < self.data.len() {
            self.data[e.index].as_ref()
        } else {
            None
        }
    }

    /// The join used by every system: a snapshot of the entities that are
    /// simultaneously live in the allocator and present in the store, in
    /// increasing slot order.
    pub fn iter_live(&self, allocator: &EntityAllocator) -> (r: Vec<Entity>)
        requires
            allocator.wf(),
        ensures
            forall|j: int|
                0 <= j < r@.len() ==> allocator.spec_is_live(#[trigger] r@[j]) && self.entry(
                    r@[j].index as int,
                ) is Some,
            forall|e: Entity|
                allocator.spec_is_live(e) && self.entry(e.index as int) is Some ==> r@.contains(e),
            forall|j: int, k: int| 0 <= j < k < r@.len() ==> r@[j].index < r@[k].index,
    {
        let live = allocator.live_entities();
        let mut out: Vec<Entity> = Vec::new();
        let mut i: usize = 0;
        while i < live.len()
            invariant
                i <= live@.len(),
                forall|j: int|
                    0 <= j < live@.len() ==> allocator.spec_is_live(#[trigger] live@[j]),
                forall|e: Entity| allocator.spec_is_live(e) ==> live@.contains(e),
                forall|j: int, k: int| 0 <= j < k < live@.len() ==> live@[j].index < live@[k].index,
                forall|j: int|
                    0 <= j < out@.len() ==> allocator.spec_is_live(#[trigger] out@[j]) && self.entry(
                        out@[j].index as int,
                    ) is Some,
                forall|j: int|
                    0 <= j < i ==> (self.entry(live@[j].index as int) is Some <==> out@.contains(
                        #[trigger] live@[j],
                    )),
                forall|j: int, k: int| 0 <= j < k < out@.len() ==> out@[j].index < out@[k].index,
                forall|j: int|
                    0 <= j < out@.len() ==> exists|k: int|
                        0 <= k < i && live@[k] == #[trigger] out@[j],
            decreases live@.len() - i,
        {
            let e = live[i];
            let present = e.index < self.data.len() && self.data[e.index].is_some();
            if present {
                let ghost prev_out = out@;
                out.push(e);
                proof {
                    assert forall|j: int, k: int|
                        0 <= j < k < out@.len() implies out@[j].index < out@[k].index by {
                        if k < prev_out.len() {
                        } else {
                            let w = choose|w: int| 0 <= w < i && live@[w] == prev_out[j];
                            assert(live@[w].index < live@[i as int].index);
                        }
                    }
                    assert forall|j: int|
                        0 <= j < i + 1 implies (self.entry(live@[j].index as int) is Some
                        <==> out@.contains(#[trigger] live@[j])) by {
                        if j < i {
                            if self.entry(live@[j].index as int) is Some {
                                let w = choose|w: int|
                                    0 <= w < prev_out.len() && prev_out[w] == live@[j];
                                assert(out@[w] == live@[j]);
                            } else {
                                assert forall|w: int|
                                    0 <= w < out@.len() implies out@[w] != live@[j] by {
                                    if w < prev_out.len() {
                                    } else {
                                        assert(live@[j].index < live@[i as int].index);
                                    }
                                }
                            }
                        } else {
                            assert(out@[prev_out.len() as int] == e);
                        }
                    }
                }
            } else {
                proof {
                    assert forall|j: int|
                        0 <= j < i + 1 implies (self.entry(live@[j].index as int) is Some
                        <==> out@.contains(#[trigger] live@[j])) by {
                        if j == i {
                            assert forall|w: int|
                                0 <= w < out@.len() implies out@[w] != live@[j] by {
                                let v = choose|v: int| 0 <= v < i && live@[v] == out@[w];
                                assert(live@[v].index < live@[i as int].index);
                            }
                        }
                    }
                }
            }
            i += 1;
        }
        proof {
            assert forall|e: Entity|
                allocator.spec_is_live(e) && self.entry(e.index as int) is Some implies out@.contains(
                e,
            ) by {
                let j = choose|j: int| 0 <= j < live@.len() && live@[j] == e;
                assert(self.entry(live@[j].index as int) is Some);
            }
        }
        out
    }
}

} // verus!

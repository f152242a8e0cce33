//! The world aggregate: one entity allocator and one component store per
//! component type. Entity creation and destruction fan out here — on
//! destruction every store drops its entry for the freed slot, so that a
//! later reuse of the slot can never inherit a previous occupant's data.

use vstd::prelude::*;
use crate::components::BaseStatsComponent;
use crate::components::CasterComponent;
use crate::components::ClassComponent;
use crate::components::HealthComponent;
use crate::components::HumanoidComponent;
use crate::components::InventoryComponent;
use crate::components::ItemDropComponent;
use crate::components::LocationComponent;
use crate::components::NameComponent;
use crate::components::NpcBehaviorComponent;
use crate::components::PlayerComponent;
use crate::components::RenderComponent;
use crate::components::StatusComponent;
use crate::entity::EcsError;
use crate::entity::Entity;
use crate::entity::EntityAllocator;
use crate::store::ComponentStore;

verus! {

/// Relates a store's entries before and after its entry for slot `i` was
/// dropped: slot `i` reads empty, every other slot is untouched.
pub open spec fn removed_at<T>(pre: ComponentStore<T>, post: ComponentStore<T>, i: int) -> bool {
    &&& post.entry(i) is None
    &&& forall|j: int| j != i ==> post.entry(j) == pre.entry(j)
}

/// Owns all entity and component state of a running game.
pub struct World {
    pub allocator: EntityAllocator,
    pub health_component: ComponentStore<HealthComponent>,
    pub base_stats_component: ComponentStore<BaseStatsComponent>,
    pub status_component: ComponentStore<StatusComponent>,
    pub inventory_component: ComponentStore<InventoryComponent>,
    pub location_component: ComponentStore<LocationComponent>,
    pub name_component: ComponentStore<NameComponent>,
    pub class_component: ComponentStore<ClassComponent>,
    pub caster_component: ComponentStore<CasterComponent>,
    pub humanoid_component: ComponentStore<HumanoidComponent>,
    pub npc_behavior_component: ComponentStore<NpcBehaviorComponent>,
    pub item_drop_component: ComponentStore<ItemDropComponent>,
    pub player_component: ComponentStore<PlayerComponent>,
    pub render_component: ComponentStore<RenderComponent>,
}

impl World {
    /// The world is consistent as long as its allocator is.
    pub open spec fn wf(self) -> bool {
        self.allocator.wf()
    }

    /// All component stores hold what they held in `pre`.
    pub open spec fn stores_unchanged(self, pre: World) -> bool {
        &&& self.health_component@ == pre.health_component@
        &&& self.base_stats_component@ == pre.base_stats_component@
        &&& self.status_component@ == pre.status_component@
        &&& self.inventory_component@ == pre.inventory_component@
        &&& self.location_component@ == pre.location_component@
        &&& self.name_component@ == pre.name_component@
        &&& self.class_component@ == pre.class_component@
        &&& self.caster_component@ == pre.caster_component@
        &&& self.humanoid_component@ == pre.humanoid_component@
        &&& self.npc_behavior_component@ == pre.npc_behavior_component@
        &&& self.item_drop_component@ == pre.item_drop_component@
        &&& self.player_component@ == pre.player_component@
        &&& self.render_component@ == pre.render_component@
    }

    /// Every store has dropped its entry for slot `i` and changed nothing
    /// else — the exhaustive fan-out of a destruction.
    pub open spec fn stores_removed_at(self, pre: World, i: int) -> bool {
        &&& removed_at(pre.health_component, self.health_component, i)
        &&& removed_at(pre.base_stats_component, self.base_stats_component, i)
        &&& removed_at(pre.status_component, self.status_component, i)
        &&& removed_at(pre.inventory_component, self.inventory_component, i)
        &&& removed_at(pre.location_component, self.location_component, i)
        &&& removed_at(pre.name_component, self.name_component, i)
        &&& removed_at(pre.class_component, self.class_component, i)
        &&& removed_at(pre.caster_component, self.caster_component, i)
        &&& removed_at(pre.humanoid_component, self.humanoid_component, i)
        &&& removed_at(pre.npc_behavior_component, self.npc_behavior_component, i)
        &&& removed_at(pre.item_drop_component, self.item_drop_component, i)
        &&& removed_at(pre.player_component, self.player_component, i)
        &&& removed_at(pre.render_component, self.render_component, i)
    }

    /// A fresh world: an uncapped allocator and all stores empty.
    pub fn new() -> (r: World)
        ensures
            r.wf(),
            r.allocator.slot_count() == 0,
            r.health_component@.len() == 0,
            r.base_stats_component@.len() == 0,
            r.status_component@.len() == 0,
            r.inventory_component@.len() == 0,
            r.location_component@.len() == 0,
            r.name_component@.len() == 0,
            r.class_component@.len() == 0,
            r.caster_component@.len() == 0,
            r.humanoid_component@.len() == 0,
            r.npc_behavior_component@.len() == 0,
            r.item_drop_component@.len() == 0,
            r.player_component@.len() == 0,
            r.render_component@.len() == 0,
    {
        World {
            allocator: EntityAllocator::new(),
            health_component: ComponentStore::new(),
            base_stats_component: ComponentStore::new(),
            status_component: ComponentStore::new(),
            inventory_component: ComponentStore::new(),
            location_component: ComponentStore::new(),
            name_component: ComponentStore::new(),
            class_component: ComponentStore::new(),
            caster_component: ComponentStore::new(),
            humanoid_component: ComponentStore::new(),
            npc_behavior_component: ComponentStore::new(),
            item_drop_component: ComponentStore::new(),
            player_component: ComponentStore::new(),
            render_component: ComponentStore::new(),
        }
    }

    /// Creates an entity; the new entity is live, no store holds anything
    /// for it yet, and no other entity's liveness changes. Fails with
    /// `ResourceExhausted` exactly when the allocator's cap is reached.
    pub fn spawn(&mut self) -> (r: Result<Entity, EcsError>)
        requires
            old(self).wf(),
        ensures
            final(self).wf(),
            final(self).stores_unchanged(*old(self)),
            r is Err <==> old(self).allocator.at_capacity(),
            match r {
                Ok(e) => {
                    &&& final(self).allocator.spec_is_live(e)
                    &&& !old(self).allocator.spec_is_live(e)
                    &&& forall|i: int|
                        0 <= i < old(self).allocator.slot_count()
                            ==> final(self).allocator.gens()[i] == old(self).allocator.gens()[i]
                    &&& old(self).allocator.slot_count() <= final(self).allocator.slot_count()
                    &&& forall|e2: Entity|
                        e2.index != e.index ==> (final(self).allocator.spec_is_live(e2)
                            <==> old(self).allocator.spec_is_live(e2))
                },
                Err(err) => {
                    &&& err == EcsError::ResourceExhausted
                    &&& *final(self) == *old(self)
                },
            },
    {
        self.allocator.create()
    }

    /// Destroys `e`: fails with `StaleEntity` exactly when `e` is not live;
    /// otherwise invalidates every outstanding copy of `e`, frees the slot
    /// for reuse, and drops `e`'s entry from every component store, so the
    /// slot's next occupant starts clean.
    pub fn despawn(&mut self, e: Entity) -> (r: Result<(), EcsError>)
        requires
            old(self).wf(),
        ensures
            final(self).wf(),
            r is Ok <==> old(self).allocator.spec_is_live(e),
            match r {
                Ok(()) => {
                    &&& forall|e2: Entity|
                        e2.index == e.index ==> !final(self).allocator.spec_is_live(e2)
                    &&& forall|e2: Entity|
                        e2.index != e.index ==> (final(self).allocator.spec_is_live(e2)
                            <==> old(self).allocator.spec_is_live(e2))
                    &&& final(self).allocator.slot_count() == old(self).allocator.slot_count()
                    &&& final(self).allocator.gens()[e.index as int] == e.generation + 1
                    &&& forall|i: int|
                        0 <= i < old(self).allocator.slot_count() && i != e.index as int
                            ==> final(self).allocator.gens()[i] == old(self).allocator.gens()[i]
                    &&& e.generation + 1 < u64::MAX ==> final(self).allocator.free_len() == old(
                        self,
                    ).allocator.free_len() + 1
                    &&& e.generation + 1 == u64::MAX ==> final(self).allocator.free_len() == old(
                        self,
                    ).allocator.free_len()
                    &&& final(self).stores_removed_at(*old(self), e.index as int)
                },
                Err(err) => {
                    &&& err == EcsError::StaleEntity
                    &&& *final(self) == *old(self)
                },
            },
    {
        match self.allocator.destroy(e) {
            Err(err) => Err(err),
            Ok(()) => {
                self.health_component.remove(e);
                self.base_stats_component.remove(e);
                self.status_component.remove(e);
                self.inventory_component.remove(e);
                self.location_component.remove(e);
                self.name_component.remove(e);
                self.class_component.remove(e);
                self.caster_component.remove(e);
                self.humanoid_component.remove(e);
                self.npc_behavior_component.remove(e);
                self.item_drop_component.remove(e);
                self.player_component.remove(e);
                self.render_component.remove(e);
                Ok(())
            },
        }
    }

    /// A snapshot of all currently live entities, in slot order; what the
    /// rendering and logic collaborators iterate every frame.
    pub fn live_entities(&self) -> (r: Vec<Entity>)
        requires
            self.wf(),
        ensures
            forall|j: int| 0 <= j < r@.len() ==> self.allocator.spec_is_live(#[trigger] r@[j]),
            forall|e: Entity| self.allocator.spec_is_live(e) ==> r@.contains(e),
            forall|j: int, k: int| 0 <= j < k < r@.len() ==> r@[j].index < r@[k].index,
    {
        self.allocator.live_entities()
    }

    /// The player's entity: some live entity carrying a player component,
    /// or `None` when no live entity does.
    pub fn player_entity(&self) -> (r: Option<Entity>)
        requires
            self.wf(),
        ensures
            match r {
                Some(e) => self.allocator.spec_is_live(e) && self.player_component.entry(
                    e.index as int,
                ) is Some,
                None => forall|e2: Entity|
                    self.allocator.spec_is_live(e2) ==> self.player_component.entry(
                        e2.index as int,
                    ) is None,
            },
    {
        let candidates = self.player_component.iter_live(&self.allocator);
        if candidates.len() > 0 {
            Some(candidates[0])
        } else {
            None
        }
    }

    /// The render layer of `e`'s render component (zero when there is none).
    pub open spec fn spec_render_layer(self, e: Entity) -> int {
        match self.render_component.entry(e.index as int) {
            Some(rc) => rc.render_layer as int,
            None => 0,
        }
    }

    /// `e` is drawn this frame: live, holding a render component, and that
    /// component visible.
    pub open spec fn spec_drawn(self, e: Entity) -> bool {
        &&& self.allocator.spec_is_live(e)
        &&& match self.render_component.entry(e.index as int) {
            Some(rc) => rc.visible,
            None => false,
        }
    }

    /// Draw order for one frame: every drawn entity, paired with its render
    /// layer, lower layers drawn first and entities of one layer kept in
    /// slot order.
    #[verifier::rlimit(50)]
    pub fn render_order(&self) -> (r: Vec<(i32, Entity)>)
        requires
            self.wf(),
        ensures
            forall|j: int|
                0 <= j < r@.len() ==> self.spec_drawn((#[trigger] r@[j]).1) && r@[j].0
                    == self.spec_render_layer(r@[j].1),
            forall|e: Entity| self.spec_drawn(e) ==> seq_has_entity(r@, e),
            forall|j: int, k: int|
                0 <= j < k < r@.len() ==> ((#[trigger] r@[j]).0 < (#[trigger] r@[k]).0 || (r@[j].0
                    == r@[k].0 && r@[j].1.index < r@[k].1.index)),
    {
        let candidates = self.render_component.iter_live(&self.allocator);
        let mut out: Vec<(i32, Entity)> = Vec::new();
        let mut i: usize = 0;
        while i < candidates.len()
            invariant
                self.wf(),
                i <= candidates@.len(),
                forall|j: int|
                    0 <= j < candidates@.len() ==> self.allocator.spec_is_live(
                        #[trigger] candidates@[j],
                    ) && self.render_component.entry(candidates@[j].index as int) is Some,
                forall|e: Entity|
                    self.allocator.spec_is_live(e) && self.render_component.entry(
                        e.index as int,
                    ) is Some ==> candidates@.contains(e),
                forall|j: int, k: int|
                    0 <= j < k < candidates@.len() ==> candidates@[j].index < candidates@[k].index,
                forall|j: int|
                    0 <= j < out@.len() ==> self.spec_drawn((#[trigger] out@[j]).1) && out@[j].0
                        == self.spec_render_layer(out@[j].1),
                forall|j: int|
                    0 <= j < out@.len() ==> exists|k: int|
                        0 <= k < i && candidates@[k] == (#[trigger] out@[j]).1,
                forall|k: int|
                    0 <= k < i && self.spec_drawn(#[trigger] candidates@[k]) ==> seq_has_entity(
                        out@,
                        candidates@[k],
                    ),
                forall|j: int, k: int|
                    0 <= j < k < out@.len() ==> ((#[trigger] out@[j]).0 < (#[trigger] out@[k]).0 || (
                    out@[j].0 == out@[k].0 && out@[j].1.index < out@[k].1.index)),
            decreases candidates@.len() - i,
        {
            let e = candidates[i];
            let rc = self.render_component.get(&self.allocator, e).unwrap();
            if rc.visible {
                let layer = rc.render_layer;
                let ghost pre_out = out@;
                let mut p = out.len();
                while p > 0 && out[p - 1].0 > layer
                    invariant
                        p <= out@.len(),
                        out@ == pre_out,
                        forall|j: int| p <= j < out@.len() ==> (#[trigger] out@[j]).0 > layer,
                    decreases p,
                {
                    p -= 1;
                }
                out.insert(p, (layer, e));
                proof {
                    let pv = p as int;
                    assert(out@ == pre_out.insert(pv, (layer, e)));
                    assert(out@[pv] == (layer, e));
                    assert forall|j: int| 0 <= j < pv implies (#[trigger] pre_out[j]).0 <= layer by {
                        assert(pre_out[pv - 1].0 <= layer);
                        if j < pv - 1 {
                            assert(pre_out[j].0 <= pre_out[pv - 1].0);
                        }
                    }
                    assert forall|j: int, k: int|
                        0 <= j < k < out@.len() implies ((#[trigger] out@[j]).0
                        < (#[trigger] out@[k]).0 || (out@[j].0 == out@[k].0 && out@[j].1.index
                        < out@[k].1.index)) by {
                        if k < pv {
                        } else if j < pv && k == pv {
                            if pre_out[j].0 == layer {
                                let w = choose|w: int| 0 <= w < i && candidates@[w] == pre_out[j].1;
                                assert(candidates@[w].index < candidates@[i as int].index);
                            }
                        } else if j < pv && k > pv {
                            assert(out@[k] == pre_out[k - 1]);
                            if j == k - 1 {
                            } else {
                                assert(pre_out[j].0 < pre_out[k - 1].0 || (pre_out[j].0 == pre_out[k
                                    - 1].0 && pre_out[j].1.index < pre_out[k - 1].1.index));
                            }
                        } else if j == pv {
                            assert(out@[k] == pre_out[k - 1]);
                            assert(pre_out[k - 1].0 > layer);
                        } else {
                            assert(out@[j] == pre_out[j - 1]);
                            assert(out@[k] == pre_out[k - 1]);
                        }
                    }
                    assert forall|k: int|
                        0 <= k < i + 1 && self.spec_drawn(#[trigger] candidates@[k]) implies seq_has_entity(
                        out@,
                        candidates@[k],
                    ) by {
                        if k < i {
                            let w = choose|w: int|
                                0 <= w < pre_out.len() && (#[trigger] pre_out[w]).1
                                    == candidates@[k];
                            if w < pv {
                                assert(out@[w].1 == candidates@[k]);
                            } else {
                                assert(out@[w + 1].1 == candidates@[k]);
                            }
                        } else {
                            assert(out@[pv].1 == e);
                        }
                    }
                    assert forall|j: int| 0 <= j < out@.len() implies exists|k: int|
                        0 <= k < i + 1 && candidates@[k] == (#[trigger] out@[j]).1 by {
                        if j < pv {
                            assert(pre_out[j] == out@[j]);
                            let w = choose|w: int| 0 <= w < i && candidates@[w] == pre_out[j].1;
                            assert(0 <= w < i + 1 && candidates@[w] == out@[j].1);
                        } else if j == pv {
                            assert(candidates@[i as int] == out@[j].1);
                        } else {
                            let w = choose|w: int|
                                0 <= w < i && candidates@[w] == pre_out[j - 1].1;
                            assert(0 <= w < i + 1 && candidates@[w] == out@[j].1);
                        }
                    }
                }
            } else {
                proof {
                    assert forall|k: int|
                        0 <= k < i + 1 && self.spec_drawn(#[trigger] candidates@[k]) implies seq_has_entity(
                        out@,
                        candidates@[k],
                    ) by {
                        if k == i {
                            assert(!self.spec_drawn(candidates@[k]));
                        }
                    }
                }
            }
            i += 1;
        }
        proof {
            assert forall|e: Entity| self.spec_drawn(e) implies seq_has_entity(out@, e) by {
                let j = choose|j: int| 0 <= j < candidates@.len() && candidates@[j] == e;
                assert(self.spec_drawn(candidates@[j]));
            }
        }
        out
    }
}

/// Some position of `s` holds the entity `e`.
pub open spec fn seq_has_entity(s: Seq<(i32, Entity)>, e: Entity) -> bool {
    exists|j: int| 0 <= j < s.len() && (#[trigger] s[j]).1 == e
}

} // verus!

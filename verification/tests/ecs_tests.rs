use dungeon_core::components::HealthComponent;
use dungeon_core::components::NameComponent;
use dungeon_core::entity::EcsError;
use dungeon_core::entity::EntityAllocator;
use dungeon_core::world::World;

// A spawned entity is live immediately; a despawned one is not.
#[test]
fn spawn_live_despawn_dead() {
    let mut w = World::new();
    let e = w.spawn().unwrap();
    assert!(w.allocator.is_live(e));
    w.despawn(e).unwrap();
    assert!(!w.allocator.is_live(e));
}

// Reusing a slot issues a different generation, and the stale entity can
// neither read nor write the new occupant's data.
#[test]
fn reused_index_never_aliases() {
    let mut w = World::new();
    let e_old = w.spawn().unwrap();
    w.health_component
        .insert(&w.allocator, e_old, HealthComponent { maximum: 10, current: 10 })
        .unwrap();
    w.despawn(e_old).unwrap();
    let e_new = w.spawn().unwrap();
    assert_eq!(e_new.index, e_old.index);
    assert_ne!(e_new.generation, e_old.generation);
    assert_ne!(e_new, e_old);
    // the stale entity reads as absent and cannot write
    assert!(w.health_component.get(&w.allocator, e_old).is_none());
    assert_eq!(
        w.health_component
            .insert(&w.allocator, e_old, HealthComponent { maximum: 1, current: 1 })
            .unwrap_err(),
        EcsError::StaleEntity
    );
    // and the new occupant did not inherit the old component
    assert!(w.health_component.get(&w.allocator, e_new).is_none());
}

// A store never returns a value for a despawned index, even though a value
// existed there before the despawn.
#[test]
fn despawned_index_reads_empty() {
    let mut w = World::new();
    let e = w.spawn().unwrap();
    w.name_component
        .insert(&w.allocator, e, NameComponent { name: String::from("goblin") })
        .unwrap();
    assert!(w.name_component.get(&w.allocator, e).is_some());
    w.despawn(e).unwrap();
    assert!(w.name_component.get(&w.allocator, e).is_none());
}

// Destroying a stale entity fails with StaleEntity and changes nothing.
#[test]
fn double_despawn_is_stale() {
    let mut w = World::new();
    let e = w.spawn().unwrap();
    w.despawn(e).unwrap();
    assert_eq!(w.despawn(e).unwrap_err(), EcsError::StaleEntity);
}

// A capped allocator signals ResourceExhausted exactly at its cap, and a
// freed slot can be issued again.
#[test]
fn capped_allocator_exhausts() {
    let mut a = EntityAllocator::with_limit(2);
    let e0 = a.create().unwrap();
    let _e1 = a.create().unwrap();
    assert_eq!(a.create().unwrap_err(), EcsError::ResourceExhausted);
    a.destroy(e0).unwrap();
    let e2 = a.create().unwrap();
    assert_eq!(e2.index, e0.index);
    assert_ne!(e2.generation, e0.generation);
}

// live_entities is a snapshot of exactly the live entities, in slot order.
#[test]
fn live_entities_snapshot() {
    let mut a = EntityAllocator::new();
    let e0 = a.create().unwrap();
    let e1 = a.create().unwrap();
    let e2 = a.create().unwrap();
    a.destroy(e1).unwrap();
    let live = a.live_entities();
    assert_eq!(live, vec![e0, e2]);
}

// Upsert semantics: insert returns the previous value; remove clears and
// returns it; removing an absent entry is a harmless no-op.
#[test]
fn store_upsert_and_remove() {
    let mut w = World::new();
    let e = w.spawn().unwrap();
    let prev = w
        .health_component
        .insert(&w.allocator, e, HealthComponent { maximum: 10, current: 10 })
        .unwrap();
    assert!(prev.is_none());
    let prev = w
        .health_component
        .insert(&w.allocator, e, HealthComponent { maximum: 10, current: 4 })
        .unwrap();
    assert_eq!(prev, Some(HealthComponent { maximum: 10, current: 10 }));
    let removed = w.health_component.remove(e);
    assert_eq!(removed, Some(HealthComponent { maximum: 10, current: 4 }));
    assert!(w.health_component.remove(e).is_none());
    assert!(w.health_component.get(&w.allocator, e).is_none());
}

// iter_live joins liveness and presence: only entities that are both live
// and hold a value appear, in slot order.
#[test]
fn iter_live_joins() {
    let mut w = World::new();
    let e0 = w.spawn().unwrap();
    let e1 = w.spawn().unwrap();
    let e2 = w.spawn().unwrap();
    for e in [e0, e1, e2] {
        w.health_component
            .insert(&w.allocator, e, HealthComponent { maximum: 5, current: 5 })
            .unwrap();
    }
    w.health_component.remove(e1);
    w.despawn(e2).unwrap();
    assert_eq!(w.health_component.iter_live(&w.allocator), vec![e0]);
}

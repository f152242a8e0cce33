use dungeon_core::components::AnimationState;
use dungeon_core::components::HealthComponent;
use dungeon_core::components::LocationComponent;
use dungeon_core::components::PlayerComponent;
use dungeon_core::components::RenderComponent;
use dungeon_core::components::SpriteId;
use dungeon_core::entity::Entity;
use dungeon_core::movement::Direction;
use dungeon_core::movement::LocationVec;
use dungeon_core::world::World;
use std::collections::HashMap;

fn render(layer: i32, visible: bool) -> RenderComponent {
    RenderComponent {
        base_sprite: SpriteId { id: 1 },
        animation: None::<AnimationState>,
        visible,
        render_layer: layer,
    }
}

fn player() -> PlayerComponent {
    PlayerComponent { stage_level: 1, gold: 0, progression_flags: HashMap::new() }
}

// Despawn fans out to every store: a reused slot starts with no components.
#[test]
fn despawn_clears_every_store() {
    let mut w = World::new();
    let e = w.spawn().unwrap();
    w.health_component
        .insert(&w.allocator, e, HealthComponent { maximum: 3, current: 3 })
        .unwrap();
    w.location_component
        .insert(
            &w.allocator,
            e,
            LocationComponent {
                location: LocationVec { x: 0, y: 0 },
                direction: Direction::Down,
                hitbox: None,
            },
        )
        .unwrap();
    w.render_component.insert(&w.allocator, e, render(0, true)).unwrap();
    w.despawn(e).unwrap();
    let e_new = w.spawn().unwrap();
    assert_eq!(e_new.index, e.index);
    assert!(w.health_component.get(&w.allocator, e_new).is_none());
    assert!(w.location_component.get(&w.allocator, e_new).is_none());
    assert!(w.render_component.get(&w.allocator, e_new).is_none());
}

// player_entity finds the live entity carrying a player component.
#[test]
fn player_entity_lookup() {
    let mut w = World::new();
    assert!(w.player_entity().is_none());
    let _scenery = w.spawn().unwrap();
    let p = w.spawn().unwrap();
    w.player_component.insert(&w.allocator, p, player()).unwrap();
    assert_eq!(w.player_entity(), Some(p));
    w.despawn(p).unwrap();
    assert!(w.player_entity().is_none());
}

// Draw order: ascending render layer, invisible entities and entities
// without a render component left out, one layer kept in slot order.
#[test]
fn render_order_sorts_by_layer() {
    let mut w = World::new();
    let e_top = w.spawn().unwrap();
    let e_bottom = w.spawn().unwrap();
    let e_hidden = w.spawn().unwrap();
    let e_mid_a = w.spawn().unwrap();
    let e_plain = w.spawn().unwrap();
    let e_mid_b = w.spawn().unwrap();
    w.render_component.insert(&w.allocator, e_top, render(5, true)).unwrap();
    w.render_component.insert(&w.allocator, e_bottom, render(-1, true)).unwrap();
    w.render_component.insert(&w.allocator, e_hidden, render(2, false)).unwrap();
    w.render_component.insert(&w.allocator, e_mid_a, render(3, true)).unwrap();
    w.render_component.insert(&w.allocator, e_mid_b, render(3, true)).unwrap();
    let _ = e_plain;
    let order: Vec<(i32, Entity)> = w.render_order();
    assert_eq!(
        order,
        vec![(-1, e_bottom), (3, e_mid_a), (3, e_mid_b), (5, e_top)]
    );
}

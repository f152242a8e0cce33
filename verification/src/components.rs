//! The component value types: plain data associated with an entity through
//! a per-type store.

use vstd::prelude::*;
use std::collections::HashMap;
use crate::duration::Duration;
use crate::movement::Direction;
use crate::movement::LocationVec;

verus! {

/// A timed condition affecting an entity.
#[derive(Clone, Copy, Debug, PartialEq, Eq, Structural)]
pub struct Status {
    pub effect: u32,
    pub remaining: Duration,
}

/// Names an item kind.
#[derive(Clone, Copy, Debug, PartialEq, Eq, Structural)]
pub struct ItemId {
    pub id: u32,
}

/// An item instance held in an inventory.
#[derive(Clone, Copy, Debug, PartialEq, Eq, Structural)]
pub struct Item {
    pub id: ItemId,
}

/// An item worn or wielded in an equipment slot.
#[derive(Clone, Copy, Debug, PartialEq, Eq, Structural)]
pub struct Equipment {
    pub item: ItemId,
}

/// A character class.
#[derive(Clone, Copy, Debug, PartialEq, Eq, Structural)]
pub struct Class {
    pub id: u32,
}

/// A castable spell.
#[derive(Clone, Copy, Debug, PartialEq, Eq, Structural)]
pub struct Spell {
    pub id: u32,
    pub mana_cost: i32,
}

/// An axis-aligned collision box around an entity's location, in sub-units.
#[derive(Clone, Copy, Debug, PartialEq, Eq, Structural)]
pub struct Hitbox {
    pub half_width: i64,
    pub half_height: i64,
}

/// Names a sprite resource.
#[derive(Clone, Copy, Debug, PartialEq, Eq, Structural)]
pub struct SpriteId {
    pub id: u32,
}

/// Progress of a running animation.
#[derive(Clone, Copy, Debug, PartialEq, Eq, Structural)]
pub struct AnimationState {
    pub animation: u32,
    pub frame: u32,
}

/// Hit points.
#[derive(Clone, Copy, Debug, PartialEq, Eq, Structural)]
pub struct HealthComponent {
    pub maximum: i32,
    pub current: i32,
}

/// Base combat statistics.
#[derive(Clone, Copy, Debug, PartialEq, Eq, Structural)]
pub struct BaseStatsComponent {
    pub attack: i32,
    pub defense: i32,
    pub magic: i32,
    pub resistence: i32,
}

/// The timed conditions currently affecting an entity.
#[derive(Clone, Debug)]
pub struct StatusComponent {
    pub status: Vec<Status>,
}

/// What an entity carries.
#[derive(Clone, Debug)]
pub struct InventoryComponent {
    pub items: Vec<Item>,
    pub capacity: i32,
}

/// Where an entity stands and which way it faces.
#[derive(Clone, Copy, Debug, PartialEq, Eq, Structural)]
pub struct LocationComponent {
    pub location: LocationVec,
    pub direction: Direction,
    pub hitbox: Option<Hitbox>,
}

/// An entity's display name.
#[derive(Clone, Debug)]
pub struct NameComponent {
    pub name: String,
}

/// Class and experience progression.
#[derive(Clone, Copy, Debug, PartialEq, Eq, Structural)]
pub struct ClassComponent {
    pub class: Class,
    pub level: i32,
    pub experience: i32,
}

/// Mana pool and known spells of a spell caster.
#[derive(Clone, Debug)]
pub struct CasterComponent {
    pub current_mana: i32,
    pub maximum_mana: i32,
    pub spells: Vec<Spell>,
}

/// Equipment slots of a humanoid body.
#[derive(Clone, Copy, Debug, PartialEq, Eq, Structural)]
pub struct HumanoidComponent {
    pub left_hand: Option<Equipment>,
    pub right_hand: Option<Equipment>,
    pub head: Option<Equipment>,
    pub body: Option<Equipment>,
    pub hand: Option<Equipment>,
    pub leg: Option<Equipment>,
    pub feet: Option<Equipment>,
}

/// Marks an entity as driven by non-player behavior.
#[derive(Clone, Copy, Debug, PartialEq, Eq, Structural)]
pub struct NpcBehaviorComponent {
}

/// What an entity drops when it dies.
#[derive(Clone, Copy, Debug, PartialEq, Eq, Structural)]
pub struct ItemDropComponent {
    pub gold: i32,
    pub item: Option<ItemId>,
}

/// Marks the player's entity and tracks the player's progress.
#[derive(Clone, Debug)]
pub struct PlayerComponent {
    pub stage_level: i32,
    pub gold: i32,
    pub progression_flags: HashMap<String, bool>,
}

/// How an entity is drawn.
#[derive(Clone, Copy, Debug, PartialEq, Eq, Structural)]
pub struct RenderComponent {
    pub base_sprite: SpriteId,
    pub animation: Option<AnimationState>,
    pub visible: bool,
    pub render_layer: i32,
}

} // verus!

//! The decisions behind input handling: which in-game action a key stands
//! for, and whether a press is routed to the acting player, to passive
//! handling, or ignored. Decoding device events into these plain values is
//! the caller's concern.

use vstd::prelude::*;
use crate::movement::Direction;

verus! {

/// Turn-taking state of an acting entity.
#[derive(Clone, Copy, Debug, PartialEq, Eq, Structural)]
pub enum ActorState {
    WaitingForTurn,
    Acting,
}

/// An action the player can ask for.
#[derive(Clone, Copy, Debug, PartialEq, Eq, Structural)]
pub enum PlayerAction {
    Move(Direction),
    Attack,
}

/// A pressed key, reduced to the keys the dungeon controls care about.
#[derive(Clone, Copy, Debug, PartialEq, Eq, Structural)]
pub enum InputKey {
    Up,
    Left,
    Down,
    Right,
    Space,
    Other,
}

/// Where a key press is routed.
#[derive(Clone, Copy, Debug, PartialEq, Eq, Structural)]
pub enum InputRoute {
    /// The player is waiting for its turn: the press becomes a player
    /// action and is consumed.
    ActorControls,
    /// The player is busy: the press is handled passively and passed on.
    PassiveControls,
    /// There is no player with an actor state: the press is dropped.
    Ignored,
}

/// The player action a key stands for in the dungeon controls: the arrow
/// keys move, space attacks, everything else does nothing.
pub open spec fn spec_action_for_key(key: InputKey) -> Option<PlayerAction> {
    match key {
        InputKey::Up => Some(PlayerAction::Move(Direction::Up)),
        InputKey::Left => Some(PlayerAction::Move(Direction::Left)),
        InputKey::Down => Some(PlayerAction::Move(Direction::Down)),
        InputKey::Right => Some(PlayerAction::Move(Direction::Right)),
        InputKey::Space => Some(PlayerAction::Attack),
        InputKey::Other => None,
    }
}

/// Maps a pressed key to the player action it asks for, if any.
pub fn action_for_key(key: InputKey) -> (r: Option<PlayerAction>)
    ensures
        r == spec_action_for_key(key),
{
    match key {
        InputKey::Up => Some(PlayerAction::Move(Direction::Up)),
        InputKey::Left => Some(PlayerAction::Move(Direction::Left)),
        InputKey::Down => Some(PlayerAction::Move(Direction::Down)),
        InputKey::Right => Some(PlayerAction::Move(Direction::Right)),
        InputKey::Space => Some(PlayerAction::Attack),
        InputKey::Other => None,
    }
}

/// Decides where a key press is routed, from the player's actor state
/// (`None` when no player entity carries one): a waiting player acts on the
/// press, a busy one lets it pass through, no player means it is dropped.
pub fn route_input(actor_state: Option<ActorState>) -> (r: InputRoute)
    ensures
        r == match actor_state {
            Some(ActorState::WaitingForTurn) => InputRoute::ActorControls,
            Some(ActorState::Acting) => InputRoute::PassiveControls,
            None => InputRoute::Ignored,
        },
{
    match actor_state {
        Some(ActorState::WaitingForTurn) => InputRoute::ActorControls,
        Some(ActorState::Acting) => InputRoute::PassiveControls,
        None => InputRoute::Ignored,
    }
}

} // verus!

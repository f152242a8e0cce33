use dungeon_core::input::ActorState;
use dungeon_core::input::InputKey;
use dungeon_core::input::InputRoute;
use dungeon_core::input::PlayerAction;
use dungeon_core::input::action_for_key;
use dungeon_core::input::route_input;
use dungeon_core::movement::Direction;

// Arrow keys move, space attacks, anything else does nothing.
#[test]
fn dungeon_key_bindings() {
    assert_eq!(action_for_key(InputKey::Up), Some(PlayerAction::Move(Direction::Up)));
    assert_eq!(action_for_key(InputKey::Left), Some(PlayerAction::Move(Direction::Left)));
    assert_eq!(action_for_key(InputKey::Down), Some(PlayerAction::Move(Direction::Down)));
    assert_eq!(action_for_key(InputKey::Right), Some(PlayerAction::Move(Direction::Right)));
    assert_eq!(action_for_key(InputKey::Space), Some(PlayerAction::Attack));
    assert_eq!(action_for_key(InputKey::Other), None);
}

// A waiting player acts on the press; a busy one lets it pass; no player
// drops it.
#[test]
fn press_routing() {
    assert_eq!(route_input(Some(ActorState::WaitingForTurn)), InputRoute::ActorControls);
    assert_eq!(route_input(Some(ActorState::Acting)), InputRoute::PassiveControls);
    assert_eq!(route_input(None), InputRoute::Ignored);
}

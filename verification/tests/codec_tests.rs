use dungeon_core::codec::decode_duration;
use dungeon_core::codec::decode_intent;
use dungeon_core::codec::encode_duration;
use dungeon_core::codec::encode_intent;
use dungeon_core::duration::Duration;
use dungeon_core::movement::LocationVec;
use dungeon_core::movement::MoveIntent;

// Round-trip: serializing and deserializing yields an equal value, for both
// intent variants and all duration variants.
#[test]
fn intent_round_trips() {
    let values = [
        MoveIntent::Vector(LocationVec { x: 5, y: -3 }, 7),
        MoveIntent::Vector(LocationVec { x: 0, y: 0 }, 0),
        MoveIntent::Position(LocationVec { x: i64::MAX, y: i64::MIN }, 1),
    ];
    for v in values {
        assert_eq!(decode_intent(&encode_intent(&v)), Some(v));
    }
}

#[test]
fn duration_round_trips() {
    for v in [Duration::Infinite, Duration::Steps(3), Duration::Updates(-2), Duration::Steps(0)] {
        assert_eq!(decode_duration(&encode_duration(&v)), Some(v));
    }
}

// Malformed words decode to nothing.
#[test]
fn malformed_words_rejected() {
    assert_eq!(decode_intent(&vec![]), None);
    assert_eq!(decode_intent(&vec![0, 1, 2]), None);
    assert_eq!(decode_intent(&vec![9, 1, 2, 3]), None);
    assert_eq!(decode_duration(&vec![1]), None);
    assert_eq!(decode_duration(&vec![7, 0]), None);
    // a Steps count outside the 32-bit range is no encoding
    assert_eq!(decode_duration(&vec![1, i64::MAX]), None);
    // Infinite carries no payload but a zero word
    assert_eq!(decode_duration(&vec![0, 1]), None);
}

use dungeon_core::duration::Duration;

// Infinite persists; finite variants count down and run out at one.
#[test]
fn decrement_counts_down() {
    assert_eq!(Duration::Infinite.decrement(), Some(Duration::Infinite));
    assert_eq!(Duration::Steps(3).decrement(), Some(Duration::Steps(2)));
    assert_eq!(Duration::Steps(1).decrement(), None);
    assert_eq!(Duration::Updates(2).decrement(), Some(Duration::Updates(1)));
    assert_eq!(Duration::Updates(1).decrement(), None);
}

// A count that is already spent (or never positive) runs out immediately.
#[test]
fn decrement_spent_counts() {
    assert_eq!(Duration::Steps(0).decrement(), None);
    assert_eq!(Duration::Updates(-5).decrement(), None);
}

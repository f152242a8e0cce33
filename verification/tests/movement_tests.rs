use dungeon_core::movement::LocationVec;
use dungeon_core::movement::MoveIntent;
use dungeon_core::movement::SUBUNITS_PER_FIELD;

const ZERO_VEC: LocationVec = LocationVec { x: 0, y: 0 };
const UPDATES_PER_SECOND: u64 = 10;

fn fields(n: i64) -> i64 {
    n * SUBUNITS_PER_FIELD
}

#[test]
fn arrived_vector() {
    assert!(MoveIntent::Vector(ZERO_VEC, fields(1)).has_arrived(&ZERO_VEC));
    assert!(!MoveIntent::Vector(LocationVec { x: fields(1), y: 0 }, fields(1)).has_arrived(&ZERO_VEC));
}

#[test]
fn arrived_position() {
    assert!(MoveIntent::Position(ZERO_VEC, fields(1)).has_arrived(&ZERO_VEC));
    assert!(
        MoveIntent::Position(LocationVec { x: fields(2), y: fields(1) }, fields(1))
            .has_arrived(&LocationVec { x: fields(2), y: fields(1) })
    );
    assert!(
        !MoveIntent::Position(LocationVec { x: fields(1), y: fields(2) }, fields(1))
            .has_arrived(&LocationVec { x: fields(2), y: fields(1) })
    );
}

#[test]
fn move_vector() {
    let mut intent = MoveIntent::Vector(LocationVec { x: fields(1), y: 0 }, fields(1));
    let mut location = ZERO_VEC;
    for _ in 0..UPDATES_PER_SECOND {
        location = intent.move_from(&location, UPDATES_PER_SECOND);
        println!("{:?}", &location);
        println!("{:?}", &intent);
    }
    println!("{:?}", &location);
    assert!(intent.has_arrived(&location));
}

// Straight-line arrival: five fields at five fields per second, ten ticks per
// second, reaches the goal after exactly ten ticks with no overshoot at any
// intermediate tick.
#[test]
fn straight_line_arrival_in_ten_ticks() {
    let mut intent = MoveIntent::Vector(LocationVec { x: fields(5), y: 0 }, fields(5));
    let mut location = ZERO_VEC;
    for tick in 0..10 {
        let remaining_before = match intent {
            MoveIntent::Vector(d, _) => d.x,
            _ => unreachable!(),
        };
        let before = location;
        assert!(!intent.has_arrived(&location));
        location = intent.move_from(&location, UPDATES_PER_SECOND);
        // no overshoot on either axis within the tick
        assert!((location.x - before.x).abs() <= remaining_before.abs());
        assert_eq!(location.y, 0);
        // deterministic half-field steps
        assert_eq!(location.x, (tick + 1) * SUBUNITS_PER_FIELD / 2);
    }
    assert_eq!(location, LocationVec { x: fields(5), y: 0 });
    match intent {
        MoveIntent::Vector(d, _) => assert_eq!(d, ZERO_VEC),
        _ => unreachable!(),
    }
    assert!(intent.has_arrived(&location));
}

// Exact split of one tick's step between the axes: x takes the floored
// proportional share, y takes the rest of the step.
#[test]
fn diagonal_step_exact_split() {
    let mut intent = MoveIntent::Vector(LocationVec { x: fields(3), y: fields(4) }, fields(1));
    let location = ZERO_VEC;
    let next = intent.move_from(&location, UPDATES_PER_SECOND);
    // step = 1_000_000 sub-units, split 3:4; x floors to 428_571 and y
    // receives the remaining 571_429, so the whole step is spent
    assert_eq!(next, LocationVec { x: 428_571, y: 571_429 });
    match intent {
        MoveIntent::Vector(d, s) => {
            assert_eq!(d, LocationVec { x: fields(3) - 428_571, y: fields(4) - 571_429 });
            assert_eq!(s, fields(1));
        }
        _ => unreachable!(),
    }
}

// A positive speed below one sub-unit per tick still progresses: the step
// is clamped to at least one sub-unit, so arrival is reached instead of
// stalling just short of the goal.
#[test]
fn tiny_speed_still_arrives() {
    let mut intent = MoveIntent::Vector(LocationVec { x: 1, y: 0 }, 5);
    let location = intent.move_from(&ZERO_VEC, UPDATES_PER_SECOND);
    assert_eq!(location, LocationVec { x: 1, y: 0 });
    assert!(intent.has_arrived(&location));
}

// With one sub-unit left on each axis and a one-sub-unit step, the tick
// still moves (y takes the step's remainder); the next tick finishes.
#[test]
fn equal_axis_tie_still_arrives() {
    let mut intent = MoveIntent::Vector(LocationVec { x: 1, y: 1 }, 5);
    let first = intent.move_from(&ZERO_VEC, UPDATES_PER_SECOND);
    assert_eq!(first, LocationVec { x: 0, y: 1 });
    let second = intent.move_from(&first, UPDATES_PER_SECOND);
    assert_eq!(second, LocationVec { x: 1, y: 1 });
    assert!(intent.has_arrived(&second));
}

// Arrival within the time the rate allows: a speed that does not divide
// evenly by the tick rate still reaches the goal within
// ceil(distance * ticks_per_second / speed) ticks, because the per-tick
// step is rounded up, never down.
#[test]
fn arrives_within_rate_bound() {
    // 29 sub-units at 29 sub-units/s and 10 ticks/s: the rate allows
    // ceil(29 * 10 / 29) = 10 ticks; the 3-sub-unit step arrives in 10
    let mut intent = MoveIntent::Vector(LocationVec { x: 29, y: 0 }, 29);
    let mut location = ZERO_VEC;
    let mut ticks: u32 = 0;
    while !intent.has_arrived(&location) {
        location = intent.move_from(&location, UPDATES_PER_SECOND);
        ticks += 1;
        assert!(ticks <= 10);
    }
    assert_eq!(location, LocationVec { x: 29, y: 0 });
    assert_eq!(ticks, 10);
}

// The total remaining distance strictly shrinks every tick until arrival,
// for a slow diagonal mover.
#[test]
fn remaining_distance_strictly_shrinks() {
    let mut intent = MoveIntent::Vector(LocationVec { x: 13, y: 7 }, 5);
    let mut location = ZERO_VEC;
    let mut remaining: i64 = 13 + 7;
    let mut ticks: u32 = 0;
    while !intent.has_arrived(&location) {
        location = intent.move_from(&location, UPDATES_PER_SECOND);
        let now = match intent {
            MoveIntent::Vector(d, _) => d.x.abs() + d.y.abs(),
            _ => unreachable!(),
        };
        assert!(now < remaining);
        remaining = now;
        ticks += 1;
        assert!(ticks <= 20);
    }
    assert_eq!(location, LocationVec { x: 13, y: 7 });
}

// Movement toward negative coordinates steps in the negative direction and
// arrives exactly.
#[test]
fn negative_direction_arrives() {
    let mut intent = MoveIntent::Vector(LocationVec { x: -fields(1), y: 0 }, fields(1));
    let mut location = ZERO_VEC;
    for _ in 0..10 {
        location = intent.move_from(&location, UPDATES_PER_SECOND);
    }
    assert_eq!(location, LocationVec { x: -fields(1), y: 0 });
    assert!(intent.has_arrived(&location));
}

// A non-positive speed degenerates to no movement.
#[test]
fn non_positive_speed_no_movement() {
    let mut still = MoveIntent::Vector(LocationVec { x: fields(2), y: fields(1) }, 0);
    let loc = LocationVec { x: 7, y: 9 };
    assert_eq!(still.move_from(&loc, UPDATES_PER_SECOND), loc);
    let mut backward = MoveIntent::Vector(LocationVec { x: fields(2), y: fields(1) }, -fields(1));
    assert_eq!(backward.move_from(&loc, UPDATES_PER_SECOND), loc);
}

// A zero displacement moves on neither axis.
#[test]
fn zero_displacement_no_movement() {
    let mut intent = MoveIntent::Vector(ZERO_VEC, fields(1));
    let loc = LocationVec { x: 42, y: -17 };
    assert_eq!(intent.move_from(&loc, UPDATES_PER_SECOND), loc);
    assert!(intent.has_arrived(&loc));
}

// A Position intent arrives only at exactly its target, not at nearby
// locations a sub-unit off.
#[test]
fn position_arrival_is_exact() {
    let target = LocationVec { x: fields(2), y: fields(1) };
    let intent = MoveIntent::Position(target, fields(1));
    assert!(intent.has_arrived(&target));
    assert!(!intent.has_arrived(&LocationVec { x: fields(2) + 1, y: fields(1) }));
    assert!(!intent.has_arrived(&LocationVec { x: fields(2) - 1, y: fields(1) }));
    assert!(!intent.has_arrived(&LocationVec { x: fields(2), y: fields(1) + 1 }));
    assert!(!intent.has_arrived(&ZERO_VEC));
}

// A Position intent converges to its exact target and stays a Position
// intent (its stored target never changes).
#[test]
fn position_intent_converges() {
    let target = LocationVec { x: fields(2), y: fields(1) };
    let mut intent = MoveIntent::Position(target, fields(1));
    let mut location = ZERO_VEC;
    for _ in 0..200 {
        if intent.has_arrived(&location) {
            break;
        }
        location = intent.move_from(&location, UPDATES_PER_SECOND);
    }
    assert_eq!(location, target);
    assert!(intent.has_arrived(&location));
    match intent {
        MoveIntent::Position(t, _) => assert_eq!(t, target),
        _ => unreachable!(),
    }
}

// The goal is stable across advances, for both intent variants.
#[test]
fn target_goal_stable_across_advances() {
    let target = LocationVec { x: fields(2), y: fields(1) };
    let mut pos = MoveIntent::Position(target, fields(1));
    let mut loc = ZERO_VEC;
    for _ in 0..5 {
        assert_eq!(pos.target_goal(&loc), target);
        loc = pos.move_from(&loc, UPDATES_PER_SECOND);
    }
    assert_eq!(pos.target_goal(&loc), target);

    let mut vec = MoveIntent::Vector(LocationVec { x: fields(3), y: fields(4) }, fields(1));
    let mut loc2 = LocationVec { x: fields(1), y: fields(1) };
    let goal = vec.target_goal(&loc2);
    assert_eq!(goal, LocationVec { x: fields(4), y: fields(5) });
    for _ in 0..5 {
        loc2 = vec.move_from(&loc2, UPDATES_PER_SECOND);
        assert_eq!(vec.target_goal(&loc2), goal);
    }
}

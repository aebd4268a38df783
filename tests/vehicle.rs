use smart_road::vehicle::{world_position, Direction, Route, Vehicle, MICROMETERS_PER_METER, WORLD_LIMIT};

const M: i64 = MICROMETERS_PER_METER;

#[test]
fn test_vehicle_creation() {
    let vehicle = Vehicle::new(1, (0, 0), 10_000, Route::Straight, Direction::North, 100 * M);

    assert_eq!(vehicle.id, 1);
    assert_eq!(vehicle.position, (0, 0));
    assert_eq!(vehicle.velocity, 10_000);
    assert_eq!(vehicle.route, Route::Straight);
    assert_eq!(vehicle.direction, Direction::North);
    assert_eq!(vehicle.distance_to_intersection, 100 * M);
    assert_eq!(vehicle.time_elapsed, 0);
    assert!(vehicle.active);
}

#[test]
fn test_update_position_north() {
    let mut vehicle = Vehicle::new(1, (0, 0), 10_000, Route::Straight, Direction::North, 100 * M);

    vehicle.update_position(1_000);

    assert_eq!(vehicle.position.1, 10 * M);
    assert_eq!(vehicle.distance_to_intersection, 90 * M);
    assert_eq!(vehicle.time_elapsed, 1_000);
}

#[test]
fn test_update_position_south() {
    let mut vehicle =
        Vehicle::new(1, (0, 100 * M), 10_000, Route::Straight, Direction::South, 100 * M);

    vehicle.update_position(2_000);

    assert_eq!(vehicle.position.1, 80 * M);
    assert_eq!(vehicle.distance_to_intersection, 80 * M);
    assert_eq!(vehicle.time_elapsed, 2_000);
}

#[test]
fn test_update_position_east() {
    let mut vehicle = Vehicle::new(1, (0, 0), 5_000, Route::Right, Direction::East, 50 * M);

    vehicle.update_position(2_000);

    assert_eq!(vehicle.position.0, 10 * M);
    assert_eq!(vehicle.distance_to_intersection, 40 * M);
}

#[test]
fn test_update_position_west() {
    let mut vehicle = Vehicle::new(1, (100 * M, 0), 10_000, Route::Left, Direction::West, 100 * M);

    vehicle.update_position(1_000);

    assert_eq!(vehicle.position.0, 90 * M);
    assert_eq!(vehicle.distance_to_intersection, 90 * M);
}

#[test]
fn test_vehicle_deactivation() {
    let mut vehicle = Vehicle::new(1, (0, 0), 10_000, Route::Straight, Direction::North, 10 * M);

    // 100 m in 10 s: 90 m past the center
    vehicle.update_position(10_000);

    assert!(!vehicle.active);
}

#[test]
fn test_is_too_close() {
    let vehicle1 = Vehicle::new(1, (0, 0), 10_000, Route::Straight, Direction::North, 100 * M);
    let vehicle2 =
        Vehicle::new(2, (3 * M, 4 * M), 10_000, Route::Straight, Direction::North, 95 * M);

    // 5 m apart
    assert!(vehicle1.is_too_close(&vehicle2, (10 * M) as u32));
    assert!(!vehicle1.is_too_close(&vehicle2, (3 * M) as u32));
}

#[test]
fn test_stop_vehicle() {
    let mut vehicle = Vehicle::new(1, (0, 0), 10_000, Route::Straight, Direction::North, 100 * M);

    vehicle.stop();

    assert_eq!(vehicle.velocity, 0);
    assert!(vehicle.is_stopped());
}

#[test]
fn test_set_velocity() {
    let mut vehicle = Vehicle::new(1, (0, 0), 10_000, Route::Straight, Direction::North, 100 * M);

    vehicle.set_velocity(20_000);
    assert_eq!(vehicle.velocity, 20_000);

    vehicle.set_velocity(0);
    assert!(vehicle.is_stopped());
}

#[test]
fn test_multiple_updates() {
    let mut vehicle = Vehicle::new(1, (0, 0), 10_000, Route::Straight, Direction::North, 100 * M);

    for _ in 0..5 {
        vehicle.update_position(500);
    }

    assert_eq!(vehicle.position.1, 25 * M);
    assert_eq!(vehicle.distance_to_intersection, 75 * M);
    assert_eq!(vehicle.time_elapsed, 2_500);
}

#[test]
fn test_route_variants() {
    let right = Vehicle::new(1, (0, 0), 10_000, Route::Right, Direction::North, 100 * M);
    let straight = Vehicle::new(2, (0, 0), 10_000, Route::Straight, Direction::North, 100 * M);
    let left = Vehicle::new(3, (0, 0), 10_000, Route::Left, Direction::North, 100 * M);

    assert_eq!(right.route, Route::Right);
    assert_eq!(straight.route, Route::Straight);
    assert_eq!(left.route, Route::Left);
}

#[test]
fn test_right_lane_turns() {
    // North-bound in the right lane, 5 m before the center (already past the
    // entry edge), 10 m/s for 0.6 s: turns at once and covers 6 m East.
    let mut v = Vehicle::new(10, (0, -5 * M), 10_000, Route::Right, Direction::North, 5 * M);

    v.update_position(600);

    assert!(v.has_turned, "Right-route vehicle must mark has_turned");
    assert_eq!(v.direction, Direction::East, "Vehicle should have turned right (North -> East)");
    // The base position takes over the change of lateral lane offset
    // (8.75 m, 2.5 lanes) at the turn, then moves 6 m East.
    assert!(
        (v.position.0 - (8_750_000 + 6 * M)).abs() < 1_000,
        "Post-turn X displacement incorrect"
    );
}

#[test]
fn scenario_straight_approach_two_seconds() {
    let mut v = Vehicle::new(1, (0, -100 * M), 10_000, Route::Straight, Direction::North, 100 * M);
    v.update_position(2_000);
    assert_eq!(v.position.1, -80 * M);
    assert_eq!(v.distance_to_intersection, 80 * M);
    assert!(v.active);
    assert!(!v.has_turned);
}

#[test]
fn turn_keeps_world_position() {
    // 20.5 m out, 10 m/s for 1 s: reaches the entry edge (10.5 m) exactly.
    let start = Vehicle::new(3, (0, -20_500_000), 10_000, Route::Right, Direction::North, 20_500_000);
    let mut at_edge = start;
    let before_world = {
        let mut moved = start;
        moved.position.1 += 10 * M; // straight up to the edge, no rotation
        world_position(&moved)
    };
    at_edge.update_position(1_000);
    assert!(at_edge.has_turned);
    assert_eq!(at_edge.direction, Direction::East);
    assert_eq!(at_edge.prev_direction, Direction::North);
    assert_eq!(world_position(&at_edge), before_world);
}

#[test]
fn right_turn_waits_for_the_edge() {
    let mut v = Vehicle::new(4, (0, 0), 5_000, Route::Right, Direction::South, 30 * M);
    v.update_position(1_000);
    assert!(!v.has_turned);
    assert_eq!(v.direction, Direction::South);
    assert_eq!(v.position, (0, -5 * M));
    // 25 m out, 14.5 m to the edge, 20 m this step: turns South -> West
    v.update_position(4_000);
    assert!(v.has_turned);
    assert_eq!(v.direction, Direction::West);
    assert_eq!(v.distance_to_intersection, 5 * M);
    // to the edge: y = -19.5 m; offset transfer (-8.75, 0) - (0, 8.75); then 5.5 m West
    assert_eq!(v.position, (-8_750_000 - 5_500_000, -19_500_000 - 8_750_000));
}

#[test]
fn straight_vehicle_never_turns() {
    let mut v = Vehicle::new(5, (0, 0), 15_000, Route::Straight, Direction::East, 5 * M);
    v.update_position(1_000);
    assert!(!v.has_turned);
    assert_eq!(v.direction, Direction::East);
    assert_eq!(v.distance_to_intersection, -10 * M);
    assert!(v.active);
    v.update_position(3_000);
    assert_eq!(v.distance_to_intersection, -55 * M);
    assert!(!v.active);
}

#[test]
fn world_position_offsets() {
    let n = Vehicle::new(1, (0, 0), 0, Route::Right, Direction::North, 0);
    assert_eq!(world_position(&n), (8_750_000, 0));
    let s = Vehicle::new(1, (0, 0), 0, Route::Straight, Direction::South, 0);
    assert_eq!(world_position(&s), (-5_250_000, 0));
    let e = Vehicle::new(1, (0, 0), 0, Route::Left, Direction::East, 0);
    assert_eq!(world_position(&e), (0, -1_750_000));
    let w = Vehicle::new(1, (0, 0), 0, Route::Left, Direction::West, 0);
    assert_eq!(world_position(&w), (0, 1_750_000));
}

#[test]
fn within_world_limits() {
    let v = Vehicle::new(1, (WORLD_LIMIT, -WORLD_LIMIT), 0, Route::Left, Direction::West, 0);
    assert!(v.within_world());
    let w = Vehicle::new(1, (WORLD_LIMIT + 1, 0), 0, Route::Left, Direction::West, 0);
    assert!(!w.within_world());
}

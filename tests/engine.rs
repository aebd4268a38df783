use smart_road::arbitration::decide_speed;
use smart_road::intersection::Intersection;
use smart_road::physics::{FAST, MEDIUM, SLOW};
use smart_road::simulation::Simulation;
use smart_road::vehicle::{
    Direction, Route, Vehicle, BOUNDARY_LIMIT, INTERSECTION_HALF_WIDTH, MICROMETERS_PER_METER,
};

const M: i64 = MICROMETERS_PER_METER;

fn at(id: u32, dir: Direction, route: Route, d: i64, v: u32) -> Vehicle {
    let pos = match dir {
        Direction::North => (0, -d),
        Direction::South => (0, d),
        Direction::East => (-d, 0),
        Direction::West => (d, 0),
    };
    Vehicle::new(id, pos, v, route, dir, d)
}

#[test]
fn new_intersection_has_four_empty_lanes() {
    let inter = Intersection::new((25 * M) as u32);
    assert_eq!(inter.lanes.len(), 4);
    assert_eq!(inter.total_vehicles(), 0);
    for d in [Direction::North, Direction::South, Direction::East, Direction::West] {
        assert_eq!(inter.vehicles_in_lane(d), 0);
    }
    assert_eq!(inter.intersection_entry_distance, INTERSECTION_HALF_WIDTH + 10 * M);
    assert_eq!(inter.physics.boundary_limit, BOUNDARY_LIMIT);
    assert_eq!(inter.physics.safe_distance, (25 * M) as u32);
}

#[test]
fn add_vehicle_goes_to_its_lane() {
    let mut inter = Intersection::new((25 * M) as u32);
    assert!(inter.add_vehicle(Direction::East, at(1, Direction::East, Route::Left, 100 * M, FAST)));
    assert!(inter.add_vehicle(Direction::East, at(2, Direction::East, Route::Left, 120 * M, FAST)));
    assert!(inter.add_vehicle(Direction::South, at(3, Direction::South, Route::Left, 100 * M, FAST)));
    assert_eq!(inter.vehicles_in_lane(Direction::East), 2);
    assert_eq!(inter.vehicles_in_lane(Direction::South), 1);
    assert_eq!(inter.vehicles_in_lane(Direction::North), 0);
    assert_eq!(inter.total_vehicles(), 3);
    assert_eq!(inter.lane(Direction::East)[1].id, 2);
}

#[test]
fn trailing_vehicle_five_meters_behind_is_never_fast() {
    let safe = (10 * M) as u32;
    let mut inter = Intersection::new(safe);
    inter.add_vehicle(Direction::North, at(1, Direction::North, Route::Straight, 50 * M, MEDIUM));
    inter.add_vehicle(Direction::North, at(2, Direction::North, Route::Straight, 55 * M, MEDIUM));
    let entry = inter.intersection_entry_distance;
    let trailing = decide_speed(&inter.lanes, 0, 1, safe, entry);
    assert_ne!(trailing, FAST);
    assert_eq!(trailing, 0);
    // the leader only has the trailing vehicle nearby, 5 m behind
    assert_eq!(decide_speed(&inter.lanes, 0, 0, safe, entry), SLOW);

    inter.update(100);
    let lane = inter.lane(Direction::North);
    assert_eq!(lane[1].velocity, 0);
    assert_eq!(lane[1].distance_to_intersection, 55 * M);
    assert_eq!(lane[0].velocity, SLOW);
    assert_eq!(lane[0].distance_to_intersection, 50 * M - 500_000);
}

#[test]
fn lone_vehicle_approaches_by_speed_times_step() {
    let mut inter = Intersection::new((25 * M) as u32);
    inter.add_vehicle(Direction::West, at(1, Direction::West, Route::Straight, 100 * M, 0));
    inter.update(100);
    let v = inter.lane(Direction::West)[0];
    assert_eq!(v.velocity, FAST);
    assert_eq!(v.distance_to_intersection, 100 * M - 1_500_000);
    assert_eq!(v.position, (100 * M - 1_500_000, 0));
    inter.update(100);
    let v = inter.lane(Direction::West)[0];
    assert_eq!(v.distance_to_intersection, 100 * M - 3_000_000);
}

#[test]
fn context_stage_slows_near_the_center() {
    let safe = (25 * M) as u32;
    let mut inter = Intersection::new(safe);
    inter.add_vehicle(Direction::North, at(1, Direction::North, Route::Straight, 20 * M, FAST));
    let entry = inter.intersection_entry_distance;
    assert_eq!(decide_speed(&inter.lanes, 0, 0, safe, entry), MEDIUM);
    inter.lanes[0][0].distance_to_intersection = 30 * M;
    assert_eq!(decide_speed(&inter.lanes, 0, 0, safe, entry), FAST);

    let mut near = Intersection::new(safe);
    near.add_vehicle(Direction::South, at(2, Direction::South, Route::Straight, 5 * M, FAST));
    assert_eq!(decide_speed(&near.lanes, 1, 0, safe, entry), SLOW);
}

#[test]
fn right_turn_vehicle_is_never_stopped() {
    let safe = (10 * M) as u32;
    let mut inter = Intersection::new(safe);
    inter.add_vehicle(Direction::East, at(1, Direction::East, Route::Right, 15 * M, FAST));
    inter.add_vehicle(Direction::East, at(2, Direction::East, Route::Right, 16 * M, FAST));
    let entry = inter.intersection_entry_distance;
    assert_eq!(decide_speed(&inter.lanes, 2, 1, safe, entry), SLOW);
    assert_eq!(decide_speed(&inter.lanes, 2, 0, safe, entry), SLOW);
    inter.update(100);
    for v in inter.lane(Direction::East) {
        assert!(v.velocity > 0);
    }
}

#[test]
fn non_right_vehicle_stops_behind_a_close_leader() {
    let safe = (10 * M) as u32;
    let mut inter = Intersection::new(safe);
    inter.add_vehicle(Direction::East, at(1, Direction::East, Route::Left, 15 * M, FAST));
    inter.add_vehicle(Direction::East, at(2, Direction::East, Route::Left, 16 * M, FAST));
    let entry = inter.intersection_entry_distance;
    assert_eq!(decide_speed(&inter.lanes, 2, 1, safe, entry), 0);
}

#[test]
fn conflict_loser_at_the_stop_line_stops() {
    let safe = (10 * M) as u32;
    let mut inter = Intersection::new(safe);
    // opposing straight paths, arrivals 1.2 s and 1.25 s away
    inter.add_vehicle(Direction::North, at(1, Direction::North, Route::Straight, 12 * M, MEDIUM));
    inter.add_vehicle(Direction::South, at(2, Direction::South, Route::Straight, 12_500_000, MEDIUM));
    let entry = inter.intersection_entry_distance;
    let north = decide_speed(&inter.lanes, 0, 0, safe, entry);
    let south = decide_speed(&inter.lanes, 1, 0, safe, entry);
    // North outranks South; the loser is within 2 m of the stop line
    assert_eq!(north, MEDIUM);
    assert_eq!(south, 0);
    assert!(north == 0 || south == 0);
}

#[test]
fn conflict_loser_further_out_only_slows() {
    let safe = (10 * M) as u32;
    let mut inter = Intersection::new(safe);
    inter.add_vehicle(Direction::East, at(1, Direction::East, Route::Left, 18 * M, MEDIUM));
    inter.add_vehicle(Direction::North, at(2, Direction::North, Route::Straight, 17 * M, MEDIUM));
    let entry = inter.intersection_entry_distance;
    // within the noise band; Straight outranks Left
    assert_eq!(decide_speed(&inter.lanes, 2, 0, safe, entry), SLOW);
    assert_eq!(decide_speed(&inter.lanes, 0, 0, safe, entry), MEDIUM);
}

#[test]
fn perpendicular_straight_paths_do_not_conflict() {
    let safe = (10 * M) as u32;
    let mut inter = Intersection::new(safe);
    inter.add_vehicle(Direction::East, at(1, Direction::East, Route::Straight, 12 * M, MEDIUM));
    inter.add_vehicle(Direction::North, at(2, Direction::North, Route::Straight, 12 * M, MEDIUM));
    let entry = inter.intersection_entry_distance;
    assert_eq!(decide_speed(&inter.lanes, 2, 0, safe, entry), MEDIUM);
    assert_eq!(decide_speed(&inter.lanes, 0, 0, safe, entry), MEDIUM);
}

#[test]
fn stopped_vehicle_is_no_live_conflict() {
    let safe = (10 * M) as u32;
    let mut inter = Intersection::new(safe);
    inter.add_vehicle(Direction::North, at(1, Direction::North, Route::Left, 12 * M, MEDIUM));
    inter.add_vehicle(Direction::South, at(2, Direction::South, Route::Left, 12 * M, 0));
    let entry = inter.intersection_entry_distance;
    // South is stopped, so it never arrives: neither sees a live conflict
    assert_eq!(decide_speed(&inter.lanes, 1, 0, safe, entry), MEDIUM);
    assert_eq!(decide_speed(&inter.lanes, 0, 0, safe, entry), MEDIUM);
}

#[test]
fn vehicles_past_the_limit_are_purged() {
    let mut inter = Intersection::new((25 * M) as u32);
    inter.add_vehicle(Direction::North, at(1, Direction::North, Route::Straight, -49 * M, SLOW));
    inter.add_vehicle(Direction::South, at(2, Direction::South, Route::Straight, 200 * M, SLOW));
    let mut gone = at(3, Direction::West, Route::Left, 80 * M, SLOW);
    gone.active = false;
    inter.add_vehicle(Direction::West, gone);
    inter.update(1_000);
    assert_eq!(inter.vehicles_in_lane(Direction::North), 0);
    assert_eq!(inter.vehicles_in_lane(Direction::South), 1);
    assert_eq!(inter.vehicles_in_lane(Direction::West), 0);
    assert_eq!(inter.total_vehicles(), 1);
}

#[test]
fn close_calls_count_once_per_encounter() {
    let safe = (10 * M) as u32;
    let mut inter = Intersection::new(safe);
    inter.add_vehicle(Direction::North, Vehicle::new(1, (0, 0), 0, Route::Left, Direction::North, 100 * M));
    inter.add_vehicle(Direction::East, Vehicle::new(2, (3 * M, 4 * M), 0, Route::Left, Direction::East, 100 * M));

    let first = inter.detect_close_calls();
    assert_eq!(first, vec![(1, 2)]);
    // still close: not counted again
    assert!(inter.detect_close_calls().is_empty());
    assert_eq!(inter.recorded_close_calls, vec![(1, 2)]);
    // apart
    inter.lanes[2][0].position = (50 * M, 0);
    assert!(inter.detect_close_calls().is_empty());
    assert!(inter.recorded_close_calls.is_empty());
    // close again: a second close call
    inter.lanes[2][0].position = (0, 9 * M);
    assert_eq!(inter.detect_close_calls(), vec![(1, 2)]);
}

#[test]
fn close_call_pairs_ignore_inactive_and_far_vehicles() {
    let safe = (10 * M) as u32;
    let mut inter = Intersection::new(safe);
    inter.add_vehicle(Direction::North, Vehicle::new(5, (0, 0), 0, Route::Left, Direction::North, 100 * M));
    inter.add_vehicle(Direction::North, Vehicle::new(3, (0, 10 * M), 0, Route::Left, Direction::North, 90 * M));
    let mut off = Vehicle::new(4, (1, 1), 0, Route::Left, Direction::South, 100 * M);
    off.active = false;
    inter.add_vehicle(Direction::South, off);
    inter.add_vehicle(Direction::West, Vehicle::new(7, (0, 9_999_999), 0, Route::Left, Direction::West, 100 * M));
    let calls = inter.detect_close_calls();
    // 5-3 exactly 10 m apart is not close; 3-7 and 5-7 are
    assert_eq!(calls.len(), 2);
    assert!(calls.contains(&(3, 7)));
    assert!(calls.contains(&(5, 7)));
}

#[test]
fn update_reports_new_close_calls() {
    let safe = (10 * M) as u32;
    let mut inter = Intersection::new(safe);
    inter.add_vehicle(Direction::North, at(1, Direction::North, Route::Straight, 100 * M, 0));
    inter.add_vehicle(Direction::East, Vehicle::new(2, (0, -96 * M), 0, Route::Straight, Direction::East, 100 * M));
    let calls = inter.update(10);
    assert_eq!(calls, vec![(1, 2)]);
    assert!(inter.update(10).is_empty());
}

#[test]
fn simulation_counts_and_reports() {
    let safe = (10 * M) as u32;
    let mut sim = Simulation::new(safe);
    sim.add_vehicle(at(1, Direction::North, Route::Straight, 100 * M, 0));
    sim.add_vehicle(Vehicle::new(2, (0, -96 * M), 0, Route::Straight, Direction::East, 100 * M));
    assert_eq!(sim.total_vehicles, 2);
    assert_eq!(sim.stats.num_cars, 2);
    sim.update(10);
    assert_eq!(sim.stats.num_close, 1);
    sim.update(10);
    assert_eq!(sim.stats.num_close, 1);
    assert_eq!(sim.intersection().total_vehicles(), 2);
    assert!(sim.stats.max_velo.is_some());
    assert!(sim.stats.min_velo.unwrap() <= sim.stats.max_velo.unwrap());
}

#[test]
fn removal_follows_the_configured_boundary() {
    let mut inter = Intersection::new((25 * M) as u32);
    inter.add_vehicle(Direction::North, at(1, Direction::North, Route::Straight, -45 * M, SLOW));
    inter.update(2_000);
    // 55 m past the center, beyond the default 50 m limit
    assert_eq!(inter.total_vehicles(), 0);

    let mut wide = Intersection::new((25 * M) as u32);
    wide.physics.boundary_limit = (100 * M) as u32;
    wide.add_vehicle(Direction::North, at(1, Direction::North, Route::Straight, -45 * M, SLOW));
    wide.update(2_000);
    let v = wide.lane(Direction::North)[0];
    assert!(v.active);
    assert_eq!(v.distance_to_intersection, -55 * M);
    wide.update(10_000);
    assert_eq!(wide.total_vehicles(), 0);
}

#[test]
fn advance_uses_the_given_limit() {
    let mut v = at(1, Direction::East, Route::Left, -45 * M, SLOW);
    v.advance(2_000, (100 * M) as u32);
    assert!(v.active);
    v.advance(10_000, (100 * M) as u32);
    assert!(!v.active);
    let mut w = at(2, Direction::East, Route::Left, -45 * M, SLOW);
    w.update_position(2_000);
    assert!(!w.active);
    assert_eq!(BOUNDARY_LIMIT, (50 * M) as u32);
}

#[test]
fn nearby_vehicle_slows_even_with_a_far_leader() {
    let safe = (10 * M) as u32;
    let mut inter = Intersection::new(safe);
    inter.add_vehicle(Direction::North, at(1, Direction::North, Route::Straight, 60 * M, FAST));
    inter.add_vehicle(Direction::North, at(2, Direction::North, Route::Straight, 100 * M, FAST));
    // another lane's vehicle 5 m from the trailing one
    inter.add_vehicle(Direction::West, Vehicle::new(3, (3 * M, -96 * M), 0, Route::Left, Direction::West, 200 * M));
    let entry = inter.intersection_entry_distance;
    assert_eq!(decide_speed(&inter.lanes, 0, 1, safe, entry), SLOW);
    // a Right-route trailer is also slowed by it, never stopped
    inter.lanes[0][1].route = Route::Right;
    assert_eq!(decide_speed(&inter.lanes, 0, 1, safe, entry), SLOW);
}

#[test]
fn simulation_records_speeds_after_the_tick() {
    let mut sim = Simulation::new((10 * M) as u32);
    sim.add_vehicle(at(1, Direction::North, Route::Straight, 100 * M, 0));
    sim.add_vehicle(at(2, Direction::South, Route::Straight, 20 * M, 0));
    assert_eq!(sim.stats.max_velo, None);
    sim.update(10);
    assert_eq!(sim.stats.max_velo, Some(FAST));
    assert_eq!(sim.stats.min_velo, Some(MEDIUM));
    assert_eq!(sim.intersection.physics.boundary_limit, BOUNDARY_LIMIT);
}

use smart_road::arbitration::lane_of;
use smart_road::conflict::{
    arrival_windows_overlap, direction_priority, has_priority, paths_cross, route_priority,
    time_buffer_for,
};
use smart_road::physics::{floor_sqrt, Physics, FAST, MEDIUM, SLOW};
use smart_road::stats::StatisticsManager;
use smart_road::vehicle::{direction_right_of, lane_offset_for_route, Direction, Route, Vehicle};

const M: i64 = 1_000_000;

fn v(id: u32, route: Route, dir: Direction, d: i64, speed: u32) -> Vehicle {
    Vehicle::new(id, (0, 0), speed, route, dir, d)
}

#[test]
fn crossing_table() {
    let (n, s, e, w) = (Direction::North, Direction::South, Direction::East, Direction::West);
    assert!(!paths_cross(Route::Right, n, Route::Left, s));
    assert!(!paths_cross(Route::Left, n, Route::Right, e));
    assert!(paths_cross(Route::Left, n, Route::Straight, e));
    assert!(paths_cross(Route::Straight, w, Route::Left, n));
    assert!(paths_cross(Route::Left, n, Route::Left, n));
    assert!(paths_cross(Route::Straight, n, Route::Straight, s));
    assert!(paths_cross(Route::Straight, e, Route::Straight, w));
    assert!(!paths_cross(Route::Straight, n, Route::Straight, e));
    assert!(!paths_cross(Route::Straight, s, Route::Straight, w));
}

#[test]
fn priority_cascade() {
    // rule 1: past the stop line first
    let inside = v(9, Route::Left, Direction::West, -1 * M, SLOW);
    let approaching = v(1, Route::Straight, Direction::North, 1 * M, SLOW);
    assert!(has_priority(&inside, &approaching));
    assert!(!has_priority(&approaching, &inside));
    // rule 2: clearly closer first
    let close = v(9, Route::Left, Direction::West, 5 * M, SLOW);
    let far = v(1, Route::Straight, Direction::North, 14 * M, SLOW);
    assert!(has_priority(&close, &far));
    assert!(!has_priority(&far, &close));
    // within the noise band: rule 3, Straight > Right > Left
    let a = v(9, Route::Straight, Direction::West, 10 * M, SLOW);
    let b = v(1, Route::Left, Direction::North, 5 * M, SLOW);
    assert!(has_priority(&a, &b));
    let c = v(9, Route::Right, Direction::West, 10 * M, SLOW);
    assert!(has_priority(&c, &b));
    assert!(!has_priority(&c, &a));
    // rule 4: North > East > South > West
    let n = v(9, Route::Left, Direction::North, 10 * M, SLOW);
    let e = v(1, Route::Left, Direction::East, 10 * M, SLOW);
    let s = v(2, Route::Left, Direction::South, 10 * M, SLOW);
    let w = v(3, Route::Left, Direction::West, 10 * M, SLOW);
    assert!(has_priority(&n, &e));
    assert!(has_priority(&e, &s));
    assert!(has_priority(&s, &w));
    assert!(!has_priority(&w, &n));
    // rule 5: lower id
    let x = v(4, Route::Left, Direction::North, 10 * M, SLOW);
    let y = v(7, Route::Left, Direction::North, 12 * M, SLOW);
    assert!(has_priority(&x, &y));
    assert!(!has_priority(&y, &x));
}

#[test]
fn ranks() {
    assert!(route_priority(Route::Straight) > route_priority(Route::Right));
    assert!(route_priority(Route::Right) > route_priority(Route::Left));
    assert!(direction_priority(Direction::North) > direction_priority(Direction::East));
    assert!(direction_priority(Direction::East) > direction_priority(Direction::South));
    assert!(direction_priority(Direction::South) > direction_priority(Direction::West));
}

#[test]
fn buffer_widens_with_occupancy() {
    assert_eq!(time_buffer_for(0), 1_800);
    assert_eq!(time_buffer_for(2), 1_800);
    assert_eq!(time_buffer_for(3), 2_200);
    assert_eq!(time_buffer_for(5), 2_200);
    assert_eq!(time_buffer_for(6), 3_500);
    assert_eq!(time_buffer_for(40), 3_500);
}

#[test]
fn arrival_windows() {
    // 1.0 s and 2.7 s: 1.7 s apart
    let ego = v(1, Route::Left, Direction::North, 10 * M, MEDIUM);
    let other = v(2, Route::Left, Direction::South, 27 * M, MEDIUM);
    assert!(arrival_windows_overlap(&ego, &other, 1_800));
    assert!(!arrival_windows_overlap(&ego, &other, 1_700));
    // the other's distance counts by its magnitude
    let past = v(3, Route::Left, Direction::South, -10 * M, MEDIUM);
    assert!(arrival_windows_overlap(&ego, &past, 1));
    // beyond the 8 s horizon
    let slow_far = v(4, Route::Left, Direction::North, 45 * M, SLOW);
    let other_far = v(5, Route::Left, Direction::South, 45 * M, SLOW);
    assert!(!arrival_windows_overlap(&slow_far, &other_far, 3_500));
    // stopped vehicles never arrive
    let stopped = v(6, Route::Left, Direction::South, 10 * M, 0);
    assert!(!arrival_windows_overlap(&ego, &stopped, 3_500));
    assert!(!arrival_windows_overlap(&stopped, &ego, 3_500));
    // a wide buffer
    let late = v(7, Route::Left, Direction::South, 60 * M, SLOW);
    assert!(arrival_windows_overlap(&ego, &late, 12_000));
    assert!(!arrival_windows_overlap(&ego, &late, 11_000));
}

#[test]
fn headings_and_offsets() {
    assert_eq!(direction_right_of(Direction::North), Direction::East);
    assert_eq!(direction_right_of(Direction::East), Direction::South);
    assert_eq!(direction_right_of(Direction::South), Direction::West);
    assert_eq!(direction_right_of(Direction::West), Direction::North);
    assert_eq!(lane_offset_for_route(Route::Right), 8_750_000);
    assert_eq!(lane_offset_for_route(Route::Straight), 5_250_000);
    assert_eq!(lane_offset_for_route(Route::Left), 1_750_000);
    assert_eq!(lane_of(Direction::North), 0);
    assert_eq!(lane_of(Direction::South), 1);
    assert_eq!(lane_of(Direction::East), 2);
    assert_eq!(lane_of(Direction::West), 3);
}

#[test]
fn time_to_cover() {
    let p = Physics::new((25 * M) as u32, (100 * M) as u32);
    assert_eq!(p.calculate_time((20 * M) as u64, MEDIUM), Some(2_000));
    assert_eq!(p.calculate_time(1_000, 3), Some(333));
    assert_eq!(p.calculate_time((20 * M) as u64, 0), None);
}

#[test]
fn bounds_and_safe_distance() {
    let p = Physics::new((10 * M) as u32, (100 * M) as u32);
    let a = Vehicle::new(1, (0, 0), 0, Route::Left, Direction::North, -100 * M);
    let b = Vehicle::new(2, (6 * M, 8 * M), 0, Route::Left, Direction::North, -100 * M - 1);
    assert!(!p.is_out_of_bounds(&a));
    assert!(p.is_out_of_bounds(&b));
    // exactly 10 m apart is safe
    assert!(p.is_safe_distance(&a, &b));
    let c = Vehicle::new(3, (6 * M, 8 * M - 1), 0, Route::Left, Direction::North, 0);
    assert!(!p.is_safe_distance(&a, &c));
}

#[test]
fn simple_distance_keeping() {
    let p = Physics::new((10 * M) as u32, (100 * M) as u32);
    let leader = Vehicle::new(1, (0, 5 * M), MEDIUM, Route::Left, Direction::North, 50 * M);
    let mut f = Vehicle::new(2, (0, 0), MEDIUM, Route::Left, Direction::North, 55 * M);
    p.enforce_safe_distance(&mut f, Some(&leader), FAST);
    assert_eq!(f.velocity, 0);
    let far = Vehicle::new(3, (0, 50 * M), MEDIUM, Route::Left, Direction::North, 5 * M);
    p.enforce_safe_distance(&mut f, Some(&far), FAST);
    assert_eq!(f.velocity, FAST);
    p.enforce_safe_distance(&mut f, None, SLOW);
    assert_eq!(f.velocity, SLOW);
}

#[test]
fn graded_distance_keeping() {
    let p = Physics::new((10 * M) as u32, (100 * M) as u32);
    // at 10 m/s the following distance is 10 + 8 + 2 = 20 m
    let mut f = Vehicle::new(2, (0, 0), MEDIUM, Route::Left, Direction::North, 100 * M);
    let at = |y: i64| Vehicle::new(1, (0, y), 7_000, Route::Left, Direction::North, 0);
    p.enforce_safe_distance_advanced(&mut f, Some(&at(5 * M)), FAST);
    assert_eq!(f.velocity, 0);
    f.velocity = MEDIUM;
    p.enforce_safe_distance_advanced(&mut f, Some(&at(12 * M)), FAST);
    assert_eq!(f.velocity, 2_100);
    f.velocity = MEDIUM;
    p.enforce_safe_distance_advanced(&mut f, Some(&at(18 * M)), FAST);
    assert_eq!(f.velocity, 4_200);
    f.velocity = MEDIUM;
    p.enforce_safe_distance_advanced(&mut f, Some(&at(25 * M)), FAST);
    assert_eq!(f.velocity, 7_000);
    f.velocity = MEDIUM;
    p.enforce_safe_distance_advanced(&mut f, Some(&at(31 * M)), FAST);
    assert_eq!(f.velocity, 13_500);
    p.enforce_safe_distance_advanced(&mut f, None, SLOW);
    assert_eq!(f.velocity, SLOW);
}

#[test]
fn future_positions_and_collision_prediction() {
    let p = Physics::new((10 * M) as u32, (100 * M) as u32);
    let mut me = Vehicle::new(1, (0, 0), MEDIUM, Route::Left, Direction::North, 100 * M);
    assert_eq!(p.predict_future_position(&me, 2_000), (0, 20 * M));
    let west = Vehicle::new(2, (30 * M, 20 * M), MEDIUM, Route::Left, Direction::West, 0);
    assert_eq!(p.predict_future_position(&west, 2_000), (10 * M, 20 * M));
    // in 2 s: me at (0, 20), west at (10, 20): 10 m apart, under 15 m
    let others = vec![me, west];
    assert!(p.predict_and_prevent_collision(&mut me, &others, 2_000));
    assert_eq!(me.velocity, MEDIUM / 2);
    // 6 m apart: scaled by 6 / 20
    let mut me2 = Vehicle::new(1, (0, 0), MEDIUM, Route::Left, Direction::North, 100 * M);
    let west2 = Vehicle::new(2, (26 * M, 20 * M), MEDIUM, Route::Left, Direction::West, 0);
    assert!(p.predict_and_prevent_collision(&mut me2, &vec![west2], 2_000));
    assert_eq!(me2.velocity, 3_000);
    // nothing close
    let mut me3 = Vehicle::new(1, (0, 0), MEDIUM, Route::Left, Direction::North, 100 * M);
    let far = Vehicle::new(2, (100 * M, 0), MEDIUM, Route::Left, Direction::East, 0);
    assert!(!p.predict_and_prevent_collision(&mut me3, &vec![far], 2_000));
    assert_eq!(me3.velocity, MEDIUM);
}

#[test]
fn adjusted_velocity() {
    let p = Physics::new((10 * M) as u32, (100 * M) as u32);
    assert_eq!(p.get_adjusted_velocity(10 * M, MEDIUM), 5_000);
    assert_eq!(p.get_adjusted_velocity(30 * M, MEDIUM), 7_500);
    assert_eq!(p.get_adjusted_velocity(50 * M, MEDIUM), MEDIUM);
    assert_eq!(p.get_adjusted_velocity(10 * M, 7), 3);
}

#[test]
fn integer_square_root() {
    assert_eq!(floor_sqrt(0), 0);
    assert_eq!(floor_sqrt(1), 1);
    assert_eq!(floor_sqrt(15), 3);
    assert_eq!(floor_sqrt(16), 4);
    assert_eq!(floor_sqrt(1_000_000_000_000), 1_000_000);
    assert_eq!(floor_sqrt(u128::MAX), u64::MAX);
}

#[test]
fn statistics() {
    let mut s = StatisticsManager::new();
    assert_eq!(s.num_cars, 0);
    assert_eq!(s.num_close, 0);
    assert_eq!(s.max_velo, None);
    s.record_velocity(MEDIUM);
    s.record_velocity(SLOW);
    s.record_velocity(FAST);
    assert_eq!(s.max_velo, Some(FAST));
    assert_eq!(s.min_velo, Some(SLOW));
    s.record_close_call();
    s.record_close_call();
    assert_eq!(s.num_close, 2);
    s.num_close = u64::MAX;
    s.record_close_call();
    assert_eq!(s.num_close, u64::MAX);
    s.update_car_count(7);
    assert_eq!(s.num_cars, 7);
}

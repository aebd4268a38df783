//! The per-vehicle speed decision of one tick, computed from a snapshot of
//! all four lanes.
//!
//! A snapshot is a sequence of four lanes (North, South, East, West), each a
//! sequence of vehicles. Every decision reads the snapshot only.
use vstd::prelude::*;
use crate::conflict::{
    arrival_windows_overlap, crosses, goes_first, has_priority, paths_cross, time_buffer,
    time_buffer_for, windows_overlap,
};
use crate::physics::{FAST, MEDIUM, SLOW};
use crate::vehicle::{abs_int, sq_dist, sq_distance, Direction, Route, Vehicle,
    INTERSECTION_HALF_WIDTH, WORLD_LIMIT,
};

verus! {

/// Radius (30 m) within which vehicles of any lane count as nearby.
pub const NEARBY_RADIUS: i64 = 30_000_000;

/// A losing vehicle brakes to a stop within this distance (2 m) of the stop
/// line.
pub const FINAL_BRAKING_ZONE: i64 = 2_000_000;

/// A losing vehicle slows down within this distance (15 m) of the stop line.
pub const SLOWDOWN_ZONE: i64 = 15_000_000;

/// Below this distance to the center (8 m) every vehicle goes slow.
pub const CONTEXT_SLOW_DISTANCE: i64 = 8_000_000;

/// Below this distance to the center (25 m) every vehicle goes at most medium.
pub const CONTEXT_MEDIUM_DISTANCE: i64 = 25_000_000;

/// The lane of vehicles that come from a direction.
pub open spec fn lane_index(d: Direction) -> int {
    match d {
        Direction::North => 0,
        Direction::South => 1,
        Direction::East => 2,
        Direction::West => 3,
    }
}

pub fn lane_of(d: Direction) -> (r: usize)
    ensures
        r == lane_index(d),
{
    match d {
        Direction::North => 0,
        Direction::South => 1,
        Direction::East => 2,
        Direction::West => 3,
    }
}

/// The snapshot that a vector of lanes holds.
pub open spec fn view_lanes(lanes: Vec<Vec<Vehicle>>) -> Seq<Seq<Vehicle>> {
    lanes@.map_values(|l: Vec<Vehicle>| l@)
}

/// Four lanes whose vehicles all lie within the world.
pub open spec fn lanes_ok(s: Seq<Seq<Vehicle>>) -> bool {
    &&& s.len() == 4
    &&& forall|l: int, j: int| 0 <= l < 4 && 0 <= j < s[l].len() ==> (#[trigger] s[l][j]).in_world()
}

pub open spec fn keep_min(acc: Option<int>, c: int) -> Option<int> {
    match acc {
        None => Some(c),
        Some(a) => if c < a {
            Some(c)
        } else {
            Some(a)
        },
    }
}

pub open spec fn merge_min(a: Option<int>, b: Option<int>) -> Option<int> {
    match b {
        None => a,
        Some(c) => keep_min(a, c),
    }
}

pub open spec fn opt_view(o: Option<u128>) -> Option<int> {
    match o {
        None => None,
        Some(x) => Some(x as int),
    }
}

pub open spec fn skip_index(o: Option<usize>) -> int {
    match o {
        None => -1,
        Some(i) => i as int,
    }
}

/// Smallest squared distance from `lane[i]` to an active vehicle of the first
/// `n` of its lane that is strictly closer to the center.
pub open spec fn nearest_ahead(lane: Seq<Vehicle>, i: int, n: int) -> Option<int>
    decreases n,
{
    if n <= 0 {
        None
    } else {
        let rest = nearest_ahead(lane, i, n - 1);
        let o = lane[n - 1];
        if n - 1 != i && o.active && o.distance_to_intersection < lane[i].distance_to_intersection {
            keep_min(rest, sq_dist(lane[i], o))
        } else {
            rest
        }
    }
}

/// Smallest squared distance from `ego` to an active vehicle among the first
/// `n` of `lane` (but the one at `skip`) within the nearby radius.
pub open spec fn nearest_near(lane: Seq<Vehicle>, ego: Vehicle, skip: int, n: int) -> Option<int>
    decreases n,
{
    if n <= 0 {
        None
    } else {
        let rest = nearest_near(lane, ego, skip, n - 1);
        let o = lane[n - 1];
        if n - 1 != skip && o.active && sq_dist(ego, o) < NEARBY_RADIUS * NEARBY_RADIUS {
            keep_min(rest, sq_dist(ego, o))
        } else {
            rest
        }
    }
}

/// Smallest squared distance from vehicle `i` of lane `l` to another active
/// vehicle within the nearby radius, over the first `k` lanes.
pub open spec fn nearest_around(s: Seq<Seq<Vehicle>>, l: int, i: int, k: int) -> Option<int>
    decreases k,
{
    if k <= 0 {
        None
    } else {
        let skip = if k - 1 == l {
            i
        } else {
            -1
        };
        merge_min(
            nearest_around(s, l, i, k - 1),
            nearest_near(s[k - 1], s[l][i], skip, s[k - 1].len() as int),
        )
    }
}

/// Speed for the distance (squared) to the vehicle ahead in the same lane.
/// Right-route vehicles are floored at slow; others stop within 0.8 safe
/// distances.
pub open spec fn ahead_speed(route: Route, ahead: Option<int>, safe: int) -> int {
    let s2 = safe * safe;
    match ahead {
        None => FAST as int,
        Some(d2) => if route == Route::Right {
            if 25 * d2 < 36 * s2 {
                SLOW as int
            } else if 4 * d2 < 25 * s2 {
                MEDIUM as int
            } else {
                FAST as int
            }
        } else {
            if 25 * d2 <= 16 * s2 {
                0
            } else if 4 * d2 < 9 * s2 {
                SLOW as int
            } else if 4 * d2 < 25 * s2 {
                MEDIUM as int
            } else {
                FAST as int
            }
        },
    }
}

/// Speed for the distance (squared) to the nearest vehicle within the
/// radius, in any lane. It never stops a vehicle: stopping for a vehicle
/// that is not ahead would let two vehicles wait for each other forever.
pub open spec fn near_speed(near: Option<int>, safe: int) -> int {
    let s2 = safe * safe;
    match near {
        None => FAST as int,
        Some(d2) => if d2 < s2 {
            SLOW as int
        } else if d2 < 4 * s2 {
            MEDIUM as int
        } else {
            FAST as int
        },
    }
}

/// Proximity stage: both distances are mapped to a speed against multiples
/// of the safe distance (compared through squares), and the slower one is
/// taken, so the smaller distance decides. Right-route vehicles never get
/// below slow.
pub open spec fn proximity_speed(
    route: Route,
    ahead: Option<int>,
    near: Option<int>,
    safe: int,
) -> int {
    min_int(ahead_speed(route, ahead, safe), near_speed(near, safe))
}

/// Active vehicles of the first `n` of `lane` that are inside the footprint
/// (past the center by less than its width).
pub open spec fn inside_count(lane: Seq<Vehicle>, n: int) -> int
    decreases n,
{
    if n <= 0 {
        0
    } else {
        let o = lane[n - 1];
        inside_count(lane, n - 1) + if o.active && o.distance_to_intersection < 0
            && o.distance_to_intersection > -2 * INTERSECTION_HALF_WIDTH {
            1int
        } else {
            0int
        }
    }
}

/// Vehicles inside the footprint over the first `k` lanes other than `l`.
pub open spec fn occupancy(s: Seq<Seq<Vehicle>>, l: int, k: int) -> int
    decreases k,
{
    if k <= 0 {
        0
    } else {
        occupancy(s, l, k - 1) + if k - 1 != l {
            inside_count(s[k - 1], s[k - 1].len() as int)
        } else {
            0
        }
    }
}

/// `other` is in a live conflict with `ego` and has the right of way.
pub open spec fn blocks(ego: Vehicle, other: Vehicle, buffer: int) -> bool {
    &&& other.active
    &&& abs_int(other.distance_to_intersection as int) < 3 * INTERSECTION_HALF_WIDTH
    &&& crosses(ego.route, ego.direction, other.route, other.direction)
    &&& windows_overlap(ego, other, buffer)
    &&& !goes_first(ego, other)
}

pub open spec fn lane_blocks(lane: Seq<Vehicle>, ego: Vehicle, buffer: int) -> bool {
    exists|j: int| 0 <= j < lane.len() && blocks(ego, #[trigger] lane[j], buffer)
}

/// Some vehicle of another lane blocks vehicle `i` of lane `l`.
pub open spec fn zone_blocked(s: Seq<Seq<Vehicle>>, l: int, i: int) -> bool {
    exists|k: int|
        0 <= k < 4 && k != l && #[trigger] lane_blocks(
            s[k],
            s[l][i],
            time_buffer(occupancy(s, l, 4)),
        )
}

/// Another active vehicle of the same lane is within 0.8 safe distances.
pub open spec fn crowded(lane: Seq<Vehicle>, i: int, safe: int) -> bool {
    exists|j: int|
        0 <= j < lane.len() && j != i && (#[trigger] lane[j]).active && 25 * sq_dist(lane[i], lane[j])
            < 16 * (safe * safe)
}

/// Intersection-zone stage, evaluated only while `0 < distance <= entry`.
pub open spec fn zone_speed(s: Seq<Seq<Vehicle>>, l: int, i: int, safe: int, entry: int) -> int {
    let ego = s[l][i];
    let d = ego.distance_to_intersection as int;
    if !(0 < d && d <= entry) {
        FAST as int
    } else if ego.route == Route::Right {
        if crowded(s[l], i, safe) {
            SLOW as int
        } else {
            FAST as int
        }
    } else if zone_blocked(s, l, i) {
        let to_stop_line = d - INTERSECTION_HALF_WIDTH;
        if to_stop_line <= SLOWDOWN_ZONE {
            if to_stop_line <= FINAL_BRAKING_ZONE {
                0
            } else {
                SLOW as int
            }
        } else {
            FAST as int
        }
    } else {
        FAST as int
    }
}

/// Context stage: slower the closer the vehicle is to the center.
pub open spec fn context_speed(d: int) -> int {
    if d < CONTEXT_SLOW_DISTANCE {
        SLOW as int
    } else if d < CONTEXT_MEDIUM_DISTANCE {
        MEDIUM as int
    } else {
        FAST as int
    }
}

pub open spec fn min_int(a: int, b: int) -> int {
    if a <= b {
        a
    } else {
        b
    }
}

/// The speed assigned to vehicle `i` of lane `l`: the most conservative of
/// the three stages.
pub open spec fn decided_speed(s: Seq<Seq<Vehicle>>, l: int, i: int, safe: int, entry: int) -> int {
    let ego = s[l][i];
    let prox = proximity_speed(
        ego.route,
        nearest_ahead(s[l], i, s[l].len() as int),
        nearest_around(s, l, i, 4),
        safe,
    );
    min_int(
        min_int(prox, zone_speed(s, l, i, safe, entry)),
        context_speed(ego.distance_to_intersection as int),
    )
}

fn keep_min_exec(acc: Option<u128>, c: u128) -> (r: Option<u128>)
    ensures
        opt_view(r) == keep_min(opt_view(acc), c as int),
{
    match acc {
        None => Some(c),
        Some(a) => if c < a {
            Some(c)
        } else {
            Some(a)
        },
    }
}

fn nearest_ahead_in(lane: &Vec<Vehicle>, i: usize) -> (r: Option<u128>)
    requires
        i < lane@.len(),
        forall|j: int| 0 <= j < lane@.len() ==> (#[trigger] lane@[j]).in_world(),
    ensures
        opt_view(r) == nearest_ahead(lane@, i as int, lane@.len() as int),
        r.is_some() ==> r.unwrap() <= 8 * WORLD_LIMIT * WORLD_LIMIT,
{
    let mut best: Option<u128> = None;
    let mut j: usize = 0;
    while j < lane.len()
        invariant
            j <= lane@.len(),
            i < lane@.len(),
            forall|m: int| 0 <= m < lane@.len() ==> (#[trigger] lane@[m]).in_world(),
            opt_view(best) == nearest_ahead(lane@, i as int, j as int),
            best.is_some() ==> best.unwrap() <= 8 * WORLD_LIMIT * WORLD_LIMIT,
        decreases lane@.len() - j,
    {
        let o = &lane[j];
        if j != i && o.active && o.distance_to_intersection < lane[i].distance_to_intersection {
            let d2 = sq_distance(&lane[i], o);
            best = keep_min_exec(best, d2);
        }
        j = j + 1;
    }
    best
}

fn nearest_near_in(lane: &Vec<Vehicle>, ego: &Vehicle, skip: Option<usize>) -> (r: Option<u128>)
    requires
        ego.in_world(),
        forall|j: int| 0 <= j < lane@.len() ==> (#[trigger] lane@[j]).in_world(),
    ensures
        opt_view(r) == nearest_near(lane@, *ego, skip_index(skip), lane@.len() as int),
        r.is_some() ==> r.unwrap() <= 8 * WORLD_LIMIT * WORLD_LIMIT,
{
    let mut best: Option<u128> = None;
    let mut j: usize = 0;
    let radius_sq: u128 = (NEARBY_RADIUS as u128) * (NEARBY_RADIUS as u128);
    while j < lane.len()
        invariant
            j <= lane@.len(),
            ego.in_world(),
            radius_sq == NEARBY_RADIUS * NEARBY_RADIUS,
            forall|m: int| 0 <= m < lane@.len() ==> (#[trigger] lane@[m]).in_world(),
            opt_view(best) == nearest_near(lane@, *ego, skip_index(skip), j as int),
            best.is_some() ==> best.unwrap() <= 8 * WORLD_LIMIT * WORLD_LIMIT,
        decreases lane@.len() - j,
    {
        let o = &lane[j];
        let skipped = match skip {
            Some(s) => s == j,
            None => false,
        };
        if !skipped && o.active {
            let d2 = sq_distance(ego, o);
            if d2 < radius_sq {
                best = keep_min_exec(best, d2);
            }
        }
        j = j + 1;
    }
    best
}

fn nearest_around_in(lanes: &Vec<Vec<Vehicle>>, l: usize, i: usize) -> (r: Option<u128>)
    requires
        lanes_ok(view_lanes(*lanes)),
        l < 4,
        i < lanes@[l as int]@.len(),
    ensures
        opt_view(r) == nearest_around(view_lanes(*lanes), l as int, i as int, 4),
        r.is_some() ==> r.unwrap() <= 8 * WORLD_LIMIT * WORLD_LIMIT,
{
    let ghost s = view_lanes(*lanes);
    let ego = &lanes[l][i];
    assert(ego.in_world()) by {
        assert(s[l as int][i as int] == lanes@[l as int]@[i as int]);
    }
    let mut best: Option<u128> = None;
    let mut k: usize = 0;
    while k < 4
        invariant
            k <= 4,
            l < 4,
            lanes@.len() == 4,
            s == view_lanes(*lanes),
            lanes_ok(s),
            i < lanes@[l as int]@.len(),
            *ego == s[l as int][i as int],
            opt_view(best) == nearest_around(s, l as int, i as int, k as int),
            best.is_some() ==> best.unwrap() <= 8 * WORLD_LIMIT * WORLD_LIMIT,
        decreases 4 - k,
    {
        let lane = &lanes[k];
        assert(lane@ == s[k as int]);
        let skip = if k == l {
            Some(i)
        } else {
            None
        };
        let m = nearest_near_in(lane, ego, skip);
        best = match m {
            None => best,
            Some(c) => keep_min_exec(best, c),
        };
        k = k + 1;
    }
    best
}

fn proximity_speed_exec(route: Route, ahead: Option<u128>, near: Option<u128>, safe: u32) -> (r:
    u32)
    requires
        ahead.is_some() ==> ahead.unwrap() <= 8 * WORLD_LIMIT * WORLD_LIMIT,
        near.is_some() ==> near.unwrap() <= 8 * WORLD_LIMIT * WORLD_LIMIT,
    ensures
        r == proximity_speed(route, opt_view(ahead), opt_view(near), safe as int),
{
    proof {
        assert(0 <= safe as int * safe as int <= u32::MAX as int * u32::MAX as int)
            by (nonlinear_arith)
            requires
                safe <= u32::MAX,
        ;
    }
    let s2: u128 = (safe as u128) * (safe as u128);
    let by_ahead: u32 = match ahead {
        None => FAST,
        Some(d2) => if route == Route::Right {
            if 25 * d2 < 36 * s2 {
                SLOW
            } else if 4 * d2 < 25 * s2 {
                MEDIUM
            } else {
                FAST
            }
        } else {
            if 25 * d2 <= 16 * s2 {
                0
            } else if 4 * d2 < 9 * s2 {
                SLOW
            } else if 4 * d2 < 25 * s2 {
                MEDIUM
            } else {
                FAST
            }
        },
    };
    let by_near: u32 = match near {
        None => FAST,
        Some(d2) => if d2 < s2 {
            SLOW
        } else if d2 < 4 * s2 {
            MEDIUM
        } else {
            FAST
        },
    };
    if by_ahead <= by_near {
        by_ahead
    } else {
        by_near
    }
}

pub open spec fn min6(x: int) -> int {
    if x < 6 {
        x
    } else {
        6
    }
}

proof fn lemma_inside_count_nonneg(lane: Seq<Vehicle>, n: int)
    ensures
        inside_count(lane, n) >= 0,
    decreases n,
{
    if n > 0 {
        lemma_inside_count_nonneg(lane, n - 1);
    }
}

proof fn lemma_occupancy_nonneg(s: Seq<Seq<Vehicle>>, l: int, k: int)
    ensures
        occupancy(s, l, k) >= 0,
    decreases k,
{
    if k > 0 {
        lemma_occupancy_nonneg(s, l, k - 1);
        lemma_inside_count_nonneg(s[k - 1], s[k - 1].len() as int);
    }
}

/// Vehicles inside the footprint in lanes other than `l`, counted up to 6
/// (the largest count that changes the time buffer).
fn occupancy_capped(lanes: &Vec<Vec<Vehicle>>, l: usize) -> (r: u64)
    requires
        lanes@.len() == 4,
    ensures
        r == min6(occupancy(view_lanes(*lanes), l as int, 4)),
{
    let ghost s = view_lanes(*lanes);
    let mut c: u64 = 0;
    let mut k: usize = 0;
    while k < 4
        invariant
            k <= 4,
            lanes@.len() == 4,
            s == view_lanes(*lanes),
            c == min6(occupancy(s, l as int, k as int)),
        decreases 4 - k,
    {
        proof {
            lemma_occupancy_nonneg(s, l as int, k as int);
        }
        if k != l {
            let lane = &lanes[k];
            assert(lane@ == s[k as int]);
            let ghost base = occupancy(s, l as int, k as int);
            let mut j: usize = 0;
            while j < lane.len()
                invariant
                    j <= lane@.len(),
                    base >= 0,
                    c == min6(base + inside_count(lane@, j as int)),
                decreases lane@.len() - j,
            {
                proof {
                    lemma_inside_count_nonneg(lane@, j as int);
                }
                let o = &lane[j];
                if o.active && o.distance_to_intersection < 0 && o.distance_to_intersection > -2
                    * INTERSECTION_HALF_WIDTH {
                    if c < 6 {
                        c = c + 1;
                    }
                }
                j = j + 1;
            }
        }
        k = k + 1;
    }
    c
}

fn blocks_exec(ego: &Vehicle, other: &Vehicle, buffer: u64) -> (r: bool)
    requires
        ego.in_world(),
        other.in_world(),
        buffer <= 3_500,
    ensures
        r == blocks(*ego, *other, buffer as int),
{
    let d = other.distance_to_intersection;
    let near_footprint = -3 * INTERSECTION_HALF_WIDTH < d && d < 3 * INTERSECTION_HALF_WIDTH;
    other.active && near_footprint && paths_cross(
        ego.route,
        ego.direction,
        other.route,
        other.direction,
    ) && arrival_windows_overlap(ego, other, buffer) && !has_priority(ego, other)
}

fn lane_blocks_exec(lane: &Vec<Vehicle>, ego: &Vehicle, buffer: u64) -> (r: bool)
    requires
        ego.in_world(),
        buffer <= 3_500,
        forall|j: int| 0 <= j < lane@.len() ==> (#[trigger] lane@[j]).in_world(),
    ensures
        r == lane_blocks(lane@, *ego, buffer as int),
{
    let mut j: usize = 0;
    while j < lane.len()
        invariant
            j <= lane@.len(),
            ego.in_world(),
            buffer <= 3_500,
            forall|m: int| 0 <= m < lane@.len() ==> (#[trigger] lane@[m]).in_world(),
            forall|m: int| 0 <= m < j ==> !blocks(*ego, #[trigger] lane@[m], buffer as int),
        decreases lane@.len() - j,
    {
        if blocks_exec(ego, &lane[j], buffer) {
            return true;
        }
        j = j + 1;
    }
    false
}

fn zone_blocked_exec(lanes: &Vec<Vec<Vehicle>>, l: usize, i: usize) -> (r: bool)
    requires
        lanes_ok(view_lanes(*lanes)),
        l < 4,
        i < lanes@[l as int]@.len(),
    ensures
        r == zone_blocked(view_lanes(*lanes), l as int, i as int),
{
    let ghost s = view_lanes(*lanes);
    let ego = &lanes[l][i];
    assert(ego.in_world()) by {
        assert(s[l as int][i as int] == lanes@[l as int]@[i as int]);
    }
    let occ = occupancy_capped(lanes, l);
    let buffer = time_buffer_for(occ);
    proof {
        lemma_occupancy_nonneg(s, l as int, 4);
    }
    assert(buffer == time_buffer(occupancy(s, l as int, 4)));
    let mut k: usize = 0;
    while k < 4
        invariant
            k <= 4,
            l < 4,
            lanes@.len() == 4,
            s == view_lanes(*lanes),
            lanes_ok(s),
            i < lanes@[l as int]@.len(),
            ego.in_world(),
            *ego == s[l as int][i as int],
            buffer <= 3_500,
            buffer == time_buffer(occupancy(s, l as int, 4)),
            forall|m: int|
                0 <= m < k && m != l ==> !(#[trigger] lane_blocks(s[m], *ego, buffer as int)),
        decreases 4 - k,
    {
        if k != l {
            let lane = &lanes[k];
            assert(lane@ == s[k as int]);
            if lane_blocks_exec(lane, ego, buffer) {
                return true;
            }
        }
        k = k + 1;
    }
    false
}

fn crowded_exec(lane: &Vec<Vehicle>, i: usize, safe: u32) -> (r: bool)
    requires
        i < lane@.len(),
        forall|j: int| 0 <= j < lane@.len() ==> (#[trigger] lane@[j]).in_world(),
    ensures
        r == crowded(lane@, i as int, safe as int),
{
    proof {
        assert(0 <= safe as int * safe as int <= u32::MAX as int * u32::MAX as int)
            by (nonlinear_arith)
            requires
                safe <= u32::MAX,
        ;
    }
    let s2: u128 = (safe as u128) * (safe as u128);
    let mut j: usize = 0;
    while j < lane.len()
        invariant
            j <= lane@.len(),
            i < lane@.len(),
            s2 == safe as int * safe as int,
            s2 <= u32::MAX as int * u32::MAX as int,
            forall|m: int| 0 <= m < lane@.len() ==> (#[trigger] lane@[m]).in_world(),
            forall|m: int|
                0 <= m < j && m != i && (#[trigger] lane@[m]).active ==> !(25 * sq_dist(
                    lane@[i as int],
                    lane@[m],
                ) < 16 * (safe * safe)),
        decreases lane@.len() - j,
    {
        if j != i && lane[j].active {
            let d2 = sq_distance(&lane[i], &lane[j]);
            if 25 * d2 < 16 * s2 {
                return true;
            }
        }
        j = j + 1;
    }
    false
}

fn zone_speed_exec(lanes: &Vec<Vec<Vehicle>>, l: usize, i: usize, safe: u32, entry: i64) -> (r:
    u32)
    requires
        lanes_ok(view_lanes(*lanes)),
        l < 4,
        i < lanes@[l as int]@.len(),
    ensures
        r == zone_speed(view_lanes(*lanes), l as int, i as int, safe as int, entry as int),
{
    let ghost s = view_lanes(*lanes);
    assert(lanes@[l as int]@ == s[l as int]);
    let ego = &lanes[l][i];
    let d = ego.distance_to_intersection;
    if !(0 < d && d <= entry) {
        FAST
    } else if ego.route == Route::Right {
        if crowded_exec(&lanes[l], i, safe) {
            SLOW
        } else {
            FAST
        }
    } else if zone_blocked_exec(lanes, l, i) {
        let to_stop_line = d - INTERSECTION_HALF_WIDTH;
        if to_stop_line <= SLOWDOWN_ZONE {
            if to_stop_line <= FINAL_BRAKING_ZONE {
                0
            } else {
                SLOW
            }
        } else {
            FAST
        }
    } else {
        FAST
    }
}

fn context_speed_exec(d: i64) -> (r: u32)
    ensures
        r == context_speed(d as int),
{
    if d < CONTEXT_SLOW_DISTANCE {
        SLOW
    } else if d < CONTEXT_MEDIUM_DISTANCE {
        MEDIUM
    } else {
        FAST
    }
}

/// The speed assigned this tick to vehicle `i` of lane `l`.
pub fn decide_speed(lanes: &Vec<Vec<Vehicle>>, l: usize, i: usize, safe: u32, entry: i64) -> (r:
    u32)
    requires
        lanes_ok(view_lanes(*lanes)),
        l < 4,
        i < lanes@[l as int]@.len(),
    ensures
        r == decided_speed(view_lanes(*lanes), l as int, i as int, safe as int, entry as int),
{
    let ghost s = view_lanes(*lanes);
    let lane = &lanes[l];
    assert(lane@ == s[l as int]);
    let ego = &lane[i];
    let ahead = nearest_ahead_in(lane, i);
    let near = nearest_around_in(lanes, l, i);
    let prox = proximity_speed_exec(ego.route, ahead, near, safe);
    let zone = zone_speed_exec(lanes, l, i, safe, entry);
    let ctx = context_speed_exec(ego.distance_to_intersection);
    let m = if prox <= zone {
        prox
    } else {
        zone
    };
    if m <= ctx {
        m
    } else {
        ctx
    }
}

/// Right-turn floor: a Right-route vehicle is never assigned speed zero;
/// every stage gives it at least the slow speed.
pub proof fn lemma_right_turn_floor(s: Seq<Seq<Vehicle>>, l: int, i: int, safe: int, entry: int)
    requires
        0 <= l < s.len(),
        0 <= i < s[l].len(),
        s[l][i].route == Route::Right,
    ensures
        decided_speed(s, l, i, safe, entry) >= SLOW,
{
}

/// Conflict exclusivity: take two active, non-Right vehicles of different
/// lanes whose paths cross and whose arrival windows overlap as each of them
/// sees it, both between the center and the entry distance (and within the
/// slowdown zone of the stop line). The cascade makes exactly one of them the
/// loser; the loser is held to at most the slow speed, and is stopped within
/// the final braking zone. So when both are within that zone, at most one of
/// them keeps a nonzero speed.
pub proof fn lemma_conflict_exclusivity(
    s: Seq<Seq<Vehicle>>,
    safe: int,
    entry: int,
    la: int,
    ia: int,
    lb: int,
    ib: int,
)
    requires
        s.len() == 4,
        0 <= la < 4,
        0 <= lb < 4,
        la != lb,
        0 <= ia < s[la].len(),
        0 <= ib < s[lb].len(),
        s[la][ia].active,
        s[lb][ib].active,
        s[la][ia].id != s[lb][ib].id,
        s[la][ia].route != Route::Right,
        s[lb][ib].route != Route::Right,
        crosses(s[la][ia].route, s[la][ia].direction, s[lb][ib].route, s[lb][ib].direction),
        windows_overlap(s[la][ia], s[lb][ib], time_buffer(occupancy(s, la, 4))),
        windows_overlap(s[lb][ib], s[la][ia], time_buffer(occupancy(s, lb, 4))),
        0 < s[la][ia].distance_to_intersection <= entry,
        0 < s[lb][ib].distance_to_intersection <= entry,
        s[la][ia].distance_to_intersection <= INTERSECTION_HALF_WIDTH + SLOWDOWN_ZONE,
        s[lb][ib].distance_to_intersection <= INTERSECTION_HALF_WIDTH + SLOWDOWN_ZONE,
    ensures
        goes_first(s[la][ia], s[lb][ib]) != goes_first(s[lb][ib], s[la][ia]),
        !goes_first(s[la][ia], s[lb][ib]) ==> decided_speed(s, la, ia, safe, entry) <= SLOW,
        !goes_first(s[lb][ib], s[la][ia]) ==> decided_speed(s, lb, ib, safe, entry) <= SLOW,
        !goes_first(s[la][ia], s[lb][ib]) && s[la][ia].distance_to_intersection
            <= INTERSECTION_HALF_WIDTH + FINAL_BRAKING_ZONE ==> decided_speed(s, la, ia, safe, entry)
            == 0,
        !goes_first(s[lb][ib], s[la][ia]) && s[lb][ib].distance_to_intersection
            <= INTERSECTION_HALF_WIDTH + FINAL_BRAKING_ZONE ==> decided_speed(s, lb, ib, safe, entry)
            == 0,
        s[la][ia].distance_to_intersection <= INTERSECTION_HALF_WIDTH + FINAL_BRAKING_ZONE
            && s[lb][ib].distance_to_intersection <= INTERSECTION_HALF_WIDTH + FINAL_BRAKING_ZONE
            ==> decided_speed(s, la, ia, safe, entry) == 0 || decided_speed(s, lb, ib, safe, entry)
            == 0,
{
    let a = s[la][ia];
    let b = s[lb][ib];
    crate::conflict::lemma_single_winner(a, b);
    crate::conflict::lemma_crosses_symmetric(a.route, a.direction, b.route, b.direction);
    lemma_proximity_nonneg(a.route, nearest_ahead(s[la], ia, s[la].len() as int), nearest_around(s, la, ia, 4), safe);
    lemma_proximity_nonneg(b.route, nearest_ahead(s[lb], ib, s[lb].len() as int), nearest_around(s, lb, ib, 4), safe);
    if !goes_first(a, b) {
        let buf = time_buffer(occupancy(s, la, 4));
        assert(blocks(a, s[lb][ib], buf));
        assert(lane_blocks(s[lb], a, buf));
        assert(zone_blocked(s, la, ia));
    } else {
        let buf = time_buffer(occupancy(s, lb, 4));
        assert(blocks(b, s[la][ia], buf));
        assert(lane_blocks(s[la], b, buf));
        assert(zone_blocked(s, lb, ib));
    }
}

proof fn lemma_proximity_nonneg(route: Route, ahead: Option<int>, near: Option<int>, safe: int)
    ensures
        proximity_speed(route, ahead, near, safe) >= 0,
{
}

/// Every decided speed is one of the discrete levels 0, slow, medium, fast.
pub proof fn lemma_speed_range(s: Seq<Seq<Vehicle>>, l: int, i: int, safe: int, entry: int)
    ensures
        decided_speed(s, l, i, safe, entry) == 0 || decided_speed(s, l, i, safe, entry) == SLOW
            || decided_speed(s, l, i, safe, entry) == MEDIUM || decided_speed(s, l, i, safe, entry)
            == FAST,
{
}

} // verus!

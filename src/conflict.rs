//! Pure conflict rules: which routes cross, when two arrivals overlap in
//! time, and who has the right of way.
use vstd::prelude::*;
use crate::vehicle::{abs_int, Direction, Route, Vehicle};

verus! {

/// Within this gap of distance to the center (8 m) two vehicles count as
/// equally close.
pub const DISTANCE_NOISE_BAND: i64 = 8_000_000;

/// Conflicts whose own arrival lies further out than this (ms) are ignored.
pub const CONFLICT_HORIZON_MS: u32 = 8_000;

/// Whether the paths of two vehicles through the footprint cross.
///
/// Right turns cross nothing, left turns cross everything, and two straight
/// paths cross only when they come from opposite directions.
pub open spec fn crosses(ra: Route, da: Direction, rb: Route, db: Direction) -> bool {
    if ra == Route::Right || rb == Route::Right {
        false
    } else if ra == Route::Left || rb == Route::Left {
        true
    } else {
        opposite(da, db)
    }
}

pub open spec fn opposite(a: Direction, b: Direction) -> bool {
    match (a, b) {
        (Direction::North, Direction::South) => true,
        (Direction::South, Direction::North) => true,
        (Direction::East, Direction::West) => true,
        (Direction::West, Direction::East) => true,
        _ => false,
    }
}

/// Straight > Right > Left.
pub open spec fn route_rank(r: Route) -> int {
    match r {
        Route::Straight => 3,
        Route::Right => 2,
        Route::Left => 1,
    }
}

/// North > East > South > West.
pub open spec fn direction_rank(d: Direction) -> int {
    match d {
        Direction::North => 4,
        Direction::East => 3,
        Direction::South => 2,
        Direction::West => 1,
    }
}

/// The right-of-way cascade: `a` goes before `b`.
///
/// 1. A vehicle past the stop line (negative distance) goes before one still
///    approaching.
/// 2. Else the vehicle closer to the center, unless the gap is within the
///    noise band.
/// 3. Route rank, 4. direction rank, 5. the lower id.
pub open spec fn goes_first(a: Vehicle, b: Vehicle) -> bool {
    let da = a.distance_to_intersection as int;
    let db = b.distance_to_intersection as int;
    if da < 0 && db >= 0 {
        true
    } else if db < 0 && da >= 0 {
        false
    } else if abs_int(da - db) > DISTANCE_NOISE_BAND {
        da < db
    } else if route_rank(a.route) != route_rank(b.route) {
        route_rank(a.route) > route_rank(b.route)
    } else if direction_rank(a.direction) != direction_rank(b.direction) {
        direction_rank(a.direction) > direction_rank(b.direction)
    } else {
        a.id < b.id
    }
}

/// The two estimated arrival times at the center lie within `buffer_ms` of
/// each other, and `ego`'s own lies within the horizon. A stopped vehicle
/// never arrives, so it is in no such window.
///
/// The times are `distance / velocity` (micrometers over mm/s gives ms), using
/// the absolute distance for `other`; both sides are multiplied by the two
/// velocities so that nothing is rounded.
pub open spec fn windows_overlap(ego: Vehicle, other: Vehicle, buffer_ms: int) -> bool {
    let ve = ego.velocity as int;
    let vo = other.velocity as int;
    let de = ego.distance_to_intersection as int;
    let dob = abs_int(other.distance_to_intersection as int);
    &&& ve > 0
    &&& vo > 0
    &&& abs_int(de * vo - dob * ve) < buffer_ms * ve * vo
    &&& de < CONFLICT_HORIZON_MS * ve
}

/// The time window widens with the number of vehicles already inside the
/// footprint: 1.8 s below 3, 2.2 s below 6, else 3.5 s.
pub open spec fn time_buffer(inside: int) -> int {
    if inside < 3 {
        1_800
    } else if inside < 6 {
        2_200
    } else {
        3_500
    }
}

/// Whether the paths of two routes and headings cross.
pub fn paths_cross(ra: Route, da: Direction, rb: Route, db: Direction) -> (r: bool)
    ensures
        r == crosses(ra, da, rb, db),
{
    match (ra, rb) {
        (Route::Right, _) => false,
        (_, Route::Right) => false,
        (Route::Left, _) => true,
        (_, Route::Left) => true,
        (Route::Straight, Route::Straight) => match (da, db) {
            (Direction::North, Direction::South) => true,
            (Direction::South, Direction::North) => true,
            (Direction::East, Direction::West) => true,
            (Direction::West, Direction::East) => true,
            _ => false,
        },
    }
}

pub fn route_priority(r: Route) -> (p: u8)
    ensures
        p == route_rank(r),
{
    match r {
        Route::Straight => 3,
        Route::Right => 2,
        Route::Left => 1,
    }
}

pub fn direction_priority(d: Direction) -> (p: u8)
    ensures
        p == direction_rank(d),
{
    match d {
        Direction::North => 4,
        Direction::East => 3,
        Direction::South => 2,
        Direction::West => 1,
    }
}

/// Whether `a` has the right of way over `b`.
pub fn has_priority(a: &Vehicle, b: &Vehicle) -> (r: bool)
    ensures
        r == goes_first(*a, *b),
{
    let da = a.distance_to_intersection;
    let db = b.distance_to_intersection;
    if da < 0 && db >= 0 {
        true
    } else if db < 0 && da >= 0 {
        false
    } else {
        let diff: i128 = da as i128 - db as i128;
        let gap: i128 = if diff < 0 {
            -diff
        } else {
            diff
        };
        if gap > DISTANCE_NOISE_BAND as i128 {
            da < db
        } else {
            let ra = route_priority(a.route);
            let rb = route_priority(b.route);
            if ra != rb {
                ra > rb
            } else {
                let pa = direction_priority(a.direction);
                let pb = direction_priority(b.direction);
                if pa != pb {
                    pa > pb
                } else {
                    a.id < b.id
                }
            }
        }
    }
}

/// The buffer for a count of vehicles inside the footprint, in ms.
pub fn time_buffer_for(inside: u64) -> (r: u64)
    ensures
        r == time_buffer(inside as int),
{
    if inside < 3 {
        1_800
    } else if inside < 6 {
        2_200
    } else {
        3_500
    }
}

/// Whether the arrival windows of `ego` and `other` overlap.
pub fn arrival_windows_overlap(ego: &Vehicle, other: &Vehicle, buffer_ms: u64) -> (r: bool)
    requires
        ego.in_world(),
        other.in_world(),
        buffer_ms <= u32::MAX,
    ensures
        r == windows_overlap(*ego, *other, buffer_ms as int),
{
    if ego.velocity == 0 || other.velocity == 0 {
        return false;
    }
    let ve = ego.velocity as i128;
    let vo = other.velocity as i128;
    let de = ego.distance_to_intersection as i128;
    let dob: i128 = if other.distance_to_intersection < 0 {
        -(other.distance_to_intersection as i128)
    } else {
        other.distance_to_intersection as i128
    };
    proof {
        let w = crate::vehicle::WORLD_LIMIT as int;
        let m = u32::MAX as int;
        assert(-w * m <= de * vo <= w * m) by (nonlinear_arith)
            requires
                -w <= de <= w,
                0 <= vo <= m,
        ;
        assert(0 <= dob * ve <= w * m) by (nonlinear_arith)
            requires
                0 <= dob <= w,
                0 <= ve <= m,
        ;
        assert(0 <= ve * vo <= m * m) by (nonlinear_arith)
            requires
                0 <= ve <= m,
                0 <= vo <= m,
        ;
        assert(0 <= buffer_ms * (ve * vo) <= m * (m * m)) by (nonlinear_arith)
            requires
                0 <= ve * vo <= m * m,
                0 <= buffer_ms <= m,
        ;
        assert(buffer_ms * ve * vo == buffer_ms * (ve * vo)) by (nonlinear_arith);
    }
    let lhs = de * vo - dob * ve;
    let gap = if lhs < 0 {
        -lhs
    } else {
        lhs
    };
    gap < (buffer_ms as i128) * (ve * vo) && de < (CONFLICT_HORIZON_MS as i128) * ve
}

/// Of two distinct vehicles, exactly one goes first.
pub proof fn lemma_single_winner(a: Vehicle, b: Vehicle)
    requires
        a.id != b.id,
    ensures
        goes_first(a, b) != goes_first(b, a),
{
}

/// Crossing is symmetric in the two vehicles.
pub proof fn lemma_crosses_symmetric(ra: Route, da: Direction, rb: Route, db: Direction)
    ensures
        crosses(ra, da, rb, db) == crosses(rb, db, ra, da),
{
}

} // verus!

//! Vehicles and their kinematics.
//!
//! All quantities are integers: lengths in micrometers, speeds in millimeters
//! per second and times in milliseconds. A speed in mm/s applied for a time in
//! ms covers exactly `speed * time` micrometers, so motion never rounds.
use vstd::prelude::*;

verus! {

/// Micrometers in one meter.
pub const MICROMETERS_PER_METER: i64 = 1_000_000;

/// Width of one lane.
pub const LANE_WIDTH: i64 = 3_500_000;

/// Distance from the center of the intersection to the entry edge of its
/// footprint (three lanes).
pub const INTERSECTION_HALF_WIDTH: i64 = 10_500_000;

/// The default boundary limit: a vehicle is deactivated once it is further
/// than this (50 m) past the center.
pub const BOUNDARY_LIMIT: u32 = 50_000_000;

/// Largest coordinate, distance to the center or elapsed time (in ms) that a
/// vehicle may hold before being moved again.
pub const WORLD_LIMIT: i64 = 1_000_000_000_000_000;

/// Longest single time step, in milliseconds (one hour).
pub const MAX_TICK_MS: u32 = 3_600_000;

/// The four cardinal directions a vehicle can come from or head to.
#[derive(Debug, Clone, Copy, PartialEq, Eq, Hash, Structural)]
pub enum Direction {
    North,
    South,
    East,
    West,
}

/// The maneuver a vehicle makes at the intersection.
#[derive(Debug, Clone, Copy, PartialEq, Eq, Hash, Structural)]
pub enum Route {
    Right,
    Straight,
    Left,
}

/// A vehicle of the simulation.
///
/// `position` is the base position in micrometers; the lane offset of the
/// route is added only when the world position is needed (see
/// [`world_position`]). `velocity` is in mm/s, `distance_to_intersection` in
/// micrometers (negative once past the center) and `time_elapsed` in ms.
#[derive(Debug, Clone, Copy)]
pub struct Vehicle {
    pub id: u32,
    pub position: (i64, i64),
    pub velocity: u32,
    pub route: Route,
    pub direction: Direction,
    pub distance_to_intersection: i64,
    pub active: bool,
    pub time_elapsed: u64,
    pub has_turned: bool,
    /// Heading before the last turn (equal to `direction` until a turn).
    pub prev_direction: Direction,
}

/// The heading after a 90 degree clockwise rotation.
pub open spec fn right_of(d: Direction) -> Direction {
    match d {
        Direction::North => Direction::East,
        Direction::East => Direction::South,
        Direction::South => Direction::West,
        Direction::West => Direction::North,
    }
}

/// A point moved `dist` along heading `d` (North is +y, East is +x).
pub open spec fn step_along(p: (int, int), d: Direction, dist: int) -> (int, int) {
    match d {
        Direction::North => (p.0, p.1 + dist),
        Direction::South => (p.0, p.1 - dist),
        Direction::East => (p.0 + dist, p.1),
        Direction::West => (p.0 - dist, p.1),
    }
}

/// Lateral distance of a route's lane centerline from the road's middle:
/// 2.5 lanes for Right, 1.5 for Straight, 0.5 for Left.
pub open spec fn lane_offset(r: Route) -> int {
    match r {
        Route::Right => 8_750_000,
        Route::Straight => 5_250_000,
        Route::Left => 1_750_000,
    }
}

/// The lateral offset vector, which depends on the heading.
pub open spec fn offset_vec(d: Direction, off: int) -> (int, int) {
    match d {
        Direction::North => (off, 0),
        Direction::South => (-off, 0),
        Direction::East => (0, -off),
        Direction::West => (0, off),
    }
}

/// The world position of a base position under a heading and a route.
pub open spec fn world_of(p: (int, int), d: Direction, r: Route) -> (int, int) {
    let o = offset_vec(d, lane_offset(r));
    (p.0 + o.0, p.1 + o.1)
}

/// Squared Euclidean distance between the base positions of two vehicles.
pub open spec fn sq_dist(a: Vehicle, b: Vehicle) -> int {
    let dx = a.position.0 - b.position.0;
    let dy = a.position.1 - b.position.1;
    dx * dx + dy * dy
}

pub open spec fn abs_int(x: int) -> int {
    if x < 0 {
        -x
    } else {
        x
    }
}

impl Vehicle {
    pub open spec fn pos(self) -> (int, int) {
        (self.position.0 as int, self.position.1 as int)
    }

    /// Coordinates, distance and elapsed time are far enough from the machine
    /// limits for one more step.
    pub open spec fn in_world(self) -> bool {
        &&& abs_int(self.position.0 as int) <= WORLD_LIMIT
        &&& abs_int(self.position.1 as int) <= WORLD_LIMIT
        &&& abs_int(self.distance_to_intersection as int) <= WORLD_LIMIT
        &&& self.time_elapsed <= WORLD_LIMIT
    }

    /// Distance covered in `dt` ms at the current speed.
    pub open spec fn traveled(self, dt: u32) -> int {
        self.velocity as int * dt as int
    }

    /// Remaining distance to the entry edge of the footprint (0 once there).
    pub open spec fn to_turn_edge(self) -> int {
        let e = self.distance_to_intersection - INTERSECTION_HALF_WIDTH;
        if e > 0 {
            e
        } else {
            0
        }
    }

    /// The right turn happens during a step of `dt` ms.
    pub open spec fn turns_within(self, dt: u32) -> bool {
        &&& self.route == Route::Right
        &&& !self.has_turned
        &&& self.to_turn_edge() <= self.traveled(dt)
    }

    /// Base position once moved up to the entry edge and rotated, before the
    /// rest of the step.
    pub open spec fn pos_at_turn(self) -> (int, int) {
        let p1 = step_along(self.pos(), self.direction, self.to_turn_edge());
        let ov = offset_vec(self.direction, lane_offset(self.route));
        let nv = offset_vec(right_of(self.direction), lane_offset(self.route));
        (p1.0 + ov.0 - nv.0, p1.1 + ov.1 - nv.1)
    }

    /// Base position after a step of `dt` ms.
    pub open spec fn pos_after(self, dt: u32) -> (int, int) {
        if self.turns_within(dt) {
            step_along(
                self.pos_at_turn(),
                right_of(self.direction),
                self.traveled(dt) - self.to_turn_edge(),
            )
        } else {
            step_along(self.pos(), self.direction, self.traveled(dt))
        }
    }

    /// The vehicle after a step of `dt` ms, deactivated once further than
    /// `limit` past the center.
    pub open spec fn advanced(self, dt: u32, limit: int) -> Vehicle {
        let turns = self.turns_within(dt);
        let p = self.pos_after(dt);
        let d = self.distance_to_intersection - self.traveled(dt);
        Vehicle {
            id: self.id,
            position: (p.0 as i64, p.1 as i64),
            velocity: self.velocity,
            route: self.route,
            direction: if turns {
                right_of(self.direction)
            } else {
                self.direction
            },
            distance_to_intersection: d as i64,
            active: self.active && !(d < -limit),
            time_elapsed: (self.time_elapsed + dt) as u64,
            has_turned: self.has_turned || turns,
            prev_direction: if turns || !self.has_turned {
                self.direction
            } else {
                self.prev_direction
            },
        }
    }
}

/// The heading after a right turn.
pub fn direction_right_of(d: Direction) -> (r: Direction)
    ensures
        r == right_of(d),
{
    match d {
        Direction::North => Direction::East,
        Direction::East => Direction::South,
        Direction::South => Direction::West,
        Direction::West => Direction::North,
    }
}

/// The lane offset of a route, in micrometers.
pub fn lane_offset_for_route(route: Route) -> (r: i64)
    ensures
        r == lane_offset(route),
{
    match route {
        Route::Right => 8_750_000,
        Route::Straight => 5_250_000,
        Route::Left => 1_750_000,
    }
}

/// The lateral offset vector for a heading.
pub fn offset_vector(d: Direction, off: i64) -> (r: (i64, i64))
    requires
        0 <= off <= LANE_WIDTH * 3,
    ensures
        (r.0 as int, r.1 as int) == offset_vec(d, off as int),
{
    match d {
        Direction::North => (off, 0),
        Direction::South => (-off, 0),
        Direction::East => (0, -off),
        Direction::West => (0, off),
    }
}

/// Where the renderer draws a vehicle: its base position plus the lateral
/// offset of its route's lane under its current heading.
pub fn world_position(v: &Vehicle) -> (r: (i64, i64))
    requires
        v.in_world(),
    ensures
        (r.0 as int, r.1 as int) == world_of(v.pos(), v.direction, v.route),
{
    let o = offset_vector(v.direction, lane_offset_for_route(v.route));
    (v.position.0 + o.0, v.position.1 + o.1)
}

fn move_along(pos: &mut (i64, i64), dir: Direction, dist: i64)
    requires
        abs_int(old(pos).0 as int) + abs_int(dist as int) <= i64::MAX,
        abs_int(old(pos).1 as int) + abs_int(dist as int) <= i64::MAX,
    ensures
        (final(pos).0 as int, final(pos).1 as int) == step_along(
            (old(pos).0 as int, old(pos).1 as int),
            dir,
            dist as int,
        ),
{
    match dir {
        Direction::North => pos.1 = pos.1 + dist,
        Direction::South => pos.1 = pos.1 - dist,
        Direction::East => pos.0 = pos.0 + dist,
        Direction::West => pos.0 = pos.0 - dist,
    }
}

/// The largest distance one step can cover.
pub open spec fn max_step() -> int {
    u32::MAX as int * MAX_TICK_MS as int
}

proof fn lemma_traveled_bound(v: u32, dt: u32)
    requires
        dt <= MAX_TICK_MS,
    ensures
        0 <= v as int * dt as int <= max_step(),
        v > 0 && dt > 0 ==> v as int * dt as int > 0,
{
    assert(0 <= v as int * dt as int <= u32::MAX as int * MAX_TICK_MS as int) by (nonlinear_arith)
        requires
            dt <= MAX_TICK_MS,
            v <= u32::MAX,
    ;
    assert(v > 0 && dt > 0 ==> v as int * dt as int > 0) by (nonlinear_arith);
}

impl Vehicle {
    pub fn new(
        id: u32,
        position: (i64, i64),
        velocity: u32,
        route: Route,
        direction: Direction,
        distance_to_intersection: i64,
    ) -> (r: Self)
        ensures
            r.id == id,
            r.position == position,
            r.velocity == velocity,
            r.route == route,
            r.direction == direction,
            r.distance_to_intersection == distance_to_intersection,
            r.active,
            r.time_elapsed == 0,
            !r.has_turned,
            r.prev_direction == direction,
    {
        Vehicle {
            id,
            position,
            velocity,
            route,
            direction,
            distance_to_intersection,
            active: true,
            time_elapsed: 0,
            has_turned: false,
            prev_direction: direction,
        }
    }

    /// Whether the vehicle is far enough from the machine limits to be moved.
    pub fn within_world(&self) -> (r: bool)
        ensures
            r == self.in_world(),
    {
        -WORLD_LIMIT <= self.position.0 && self.position.0 <= WORLD_LIMIT && -WORLD_LIMIT
            <= self.position.1 && self.position.1 <= WORLD_LIMIT && -WORLD_LIMIT
            <= self.distance_to_intersection && self.distance_to_intersection <= WORLD_LIMIT
            && self.time_elapsed <= WORLD_LIMIT as u64
    }

    /// Moves the vehicle for `delta_time` ms at its current speed; it is
    /// deactivated once further than `boundary_limit` past the center.
    ///
    /// A Right-route vehicle that has not turned yet and reaches the entry
    /// edge of the footprint during the step first moves up to that edge,
    /// then rotates clockwise while its base position takes over the change
    /// of lateral lane offset (so its world position does not jump), and
    /// covers the rest of the step along the new heading.
    pub fn advance(&mut self, delta_time: u32, boundary_limit: u32)
        requires
            old(self).in_world(),
            delta_time <= MAX_TICK_MS,
        ensures
            *final(self) == old(self).advanced(delta_time, boundary_limit as int),
            final(self).distance_to_intersection == old(self).distance_to_intersection
                - old(self).velocity * delta_time,
            final(self).time_elapsed == old(self).time_elapsed + delta_time,
            old(self).velocity > 0 && delta_time > 0 ==> final(self).distance_to_intersection
                < old(self).distance_to_intersection,
    {
        proof {
            lemma_traveled_bound(self.velocity, delta_time);
        }
        let distance_traveled: i64 = (self.velocity as i64) * (delta_time as i64);
        if self.route == Route::Right && !self.has_turned {
            let turn_edge = INTERSECTION_HALF_WIDTH;
            let remaining = self.distance_to_intersection - turn_edge;
            let to_entry_edge: i64 = if remaining > 0 {
                remaining
            } else {
                0
            };
            if to_entry_edge <= distance_traveled {
                // move up to the entry edge
                if to_entry_edge > 0 {
                    move_along(&mut self.position, self.direction, to_entry_edge);
                }
                // hand the change of lateral offset over to the base position
                let offset = lane_offset_for_route(self.route);
                let old_dir = self.direction;
                let new_dir = direction_right_of(old_dir);
                let old_off = offset_vector(old_dir, offset);
                let new_off = offset_vector(new_dir, offset);
                self.position.0 = self.position.0 + (old_off.0 - new_off.0);
                self.position.1 = self.position.1 + (old_off.1 - new_off.1);
                self.direction = new_dir;
                self.has_turned = true;
                self.prev_direction = old_dir;
                // the rest of the step along the new heading
                let after_turn = distance_traveled - to_entry_edge;
                if after_turn > 0 {
                    move_along(&mut self.position, self.direction, after_turn);
                }
                self.distance_to_intersection = self.distance_to_intersection - distance_traveled;
                self.time_elapsed = self.time_elapsed + delta_time as u64;
                if self.distance_to_intersection < -(boundary_limit as i64) {
                    self.active = false;
                }
                return;
            }
        }
        move_along(&mut self.position, self.direction, distance_traveled);
        self.distance_to_intersection = self.distance_to_intersection - distance_traveled;
        self.time_elapsed = self.time_elapsed + delta_time as u64;
        if self.distance_to_intersection < -(boundary_limit as i64) {
            self.active = false;
        }
        if !self.has_turned {
            self.prev_direction = self.direction;
        }
    }

    /// Moves the vehicle for `delta_time` ms with the default boundary limit
    /// (see [`Vehicle::advance`]).
    pub fn update_position(&mut self, delta_time: u32)
        requires
            old(self).in_world(),
            delta_time <= MAX_TICK_MS,
        ensures
            *final(self) == old(self).advanced(delta_time, BOUNDARY_LIMIT as int),
            final(self).distance_to_intersection == old(self).distance_to_intersection
                - old(self).velocity * delta_time,
            final(self).time_elapsed == old(self).time_elapsed + delta_time,
            old(self).velocity > 0 && delta_time > 0 ==> final(self).distance_to_intersection
                < old(self).distance_to_intersection,
    {
        self.advance(delta_time, BOUNDARY_LIMIT);
    }

    /// Whether the two vehicles are closer than `safe_distance` (Euclidean
    /// distance between base positions).
    pub fn is_too_close(&self, other: &Vehicle, safe_distance: u32) -> (r: bool)
        ensures
            r == (sq_dist(*self, *other) < safe_distance as int * safe_distance as int),
    {
        let dx: i128 = self.position.0 as i128 - other.position.0 as i128;
        let dy: i128 = self.position.1 as i128 - other.position.1 as i128;
        let ax: i128 = if dx < 0 {
            -dx
        } else {
            dx
        };
        let ay: i128 = if dy < 0 {
            -dy
        } else {
            dy
        };
        let s = safe_distance as i128;
        if ax >= s || ay >= s {
            proof {
                assert(dx * dx + dy * dy >= s * s) by (nonlinear_arith)
                    requires
                        ax >= s || ay >= s,
                        s >= 0,
                        ax == dx || ax == -dx,
                        ay == dy || ay == -dy,
                        ax >= 0,
                        ay >= 0,
                ;
            }
            false
        } else {
            proof {
                assert(0 <= ax * ax < s * s && 0 <= ay * ay < s * s && dx * dx == ax * ax && dy
                    * dy == ay * ay) by (nonlinear_arith)
                    requires
                        0 <= ax < s,
                        0 <= ay < s,
                        ax == dx || ax == -dx,
                        ay == dy || ay == -dy,
                ;
                assert(s * s <= u32::MAX as int * u32::MAX as int) by (nonlinear_arith)
                    requires
                        0 <= s <= u32::MAX,
                ;
            }
            dx * dx + dy * dy < s * s
        }
    }

    /// Sets the speed to 0.
    pub fn stop(&mut self)
        ensures
            *final(self) == (Vehicle { velocity: 0, ..*old(self) }),
    {
        self.velocity = 0;
    }

    /// Sets the speed (mm/s).
    pub fn set_velocity(&mut self, velocity: u32)
        ensures
            *final(self) == (Vehicle { velocity, ..*old(self) }),
    {
        self.velocity = velocity;
    }

    pub fn is_stopped(&self) -> (r: bool)
        ensures
            r == (self.velocity == 0),
    {
        self.velocity == 0
    }
}

/// Squared distance between two vehicles that are within the world.
pub fn sq_distance(a: &Vehicle, b: &Vehicle) -> (r: u128)
    requires
        a.in_world(),
        b.in_world(),
    ensures
        r == sq_dist(*a, *b),
        r <= 8 * WORLD_LIMIT * WORLD_LIMIT,
{
    let dx: i128 = a.position.0 as i128 - b.position.0 as i128;
    let dy: i128 = a.position.1 as i128 - b.position.1 as i128;
    proof {
        let w = WORLD_LIMIT as int;
        assert(0 <= dx * dx <= 4 * w * w) by (nonlinear_arith)
            requires
                -2 * w <= dx <= 2 * w,
        ;
        assert(0 <= dy * dy <= 4 * w * w) by (nonlinear_arith)
            requires
                -2 * w <= dy <= 2 * w,
        ;
    }
    (dx * dx + dy * dy) as u128
}

/// A right turn keeps the world position: at the instant of rotation, the
/// shifted base position under the new heading is drawn where the base
/// position at the entry edge was drawn under the old heading. A North-bound
/// Right-route vehicle whose step reaches the entry edge ends the step
/// turned and heading East.
pub proof fn lemma_turn_continuity(v: Vehicle, dt: u32)
    requires
        v.route == Route::Right,
        !v.has_turned,
    ensures
        world_of(v.pos_at_turn(), right_of(v.direction), v.route) == world_of(
            step_along(v.pos(), v.direction, v.to_turn_edge()),
            v.direction,
            v.route,
        ),
        v.direction == Direction::North && v.to_turn_edge() <= v.traveled(dt) ==> {
            &&& v.advanced(dt, BOUNDARY_LIMIT as int).has_turned
            &&& v.advanced(dt, BOUNDARY_LIMIT as int).direction == Direction::East
        },
{
}

} // verus!

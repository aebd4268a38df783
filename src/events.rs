//! Spawning vehicles on key presses and at random, with a per-direction
//! cooldown and (for random spawns) a cap on vehicles per lane.
//!
//! The clock is read by the caller: every method that needs the time takes
//! `now_ms`, a monotonic timestamp in milliseconds.
use vstd::prelude::*;
use rand::Rng;
use crate::arbitration::lane_index;
use crate::intersection::Intersection;
use crate::physics::{FAST, MEDIUM, SLOW};
use crate::vehicle::{Direction, Route, Vehicle};

verus! {

/// Events that can occur in the simulation.
#[derive(Debug, Clone, Copy)]
pub enum SimulationEvent {
    /// The simulation should exit and show its statistics.
    Exit,
    /// A vehicle was spawned.
    VehicleSpawned { id: u32, direction: Direction },
    /// Random generation was switched on or off.
    RandomGenerationToggled { enabled: bool },
}

/// Input events, as the front end hands them to the simulation.
#[derive(Debug, Clone, Copy, PartialEq, Eq, Structural)]
pub enum Event {
    /// The window was closed.
    Quit,
    /// A key was pressed.
    KeyPressed(Key),
}

/// The keys the spawner reacts to.
#[derive(Debug, Clone, Copy, PartialEq, Eq, Structural)]
pub enum Key {
    Up,
    Down,
    Right,
    Left,
    R,
    Other,
}

/// The lane a vehicle is spawned in, which fixes its route.
#[derive(Debug, Clone, Copy, PartialEq, Eq, Structural)]
pub enum LanePos {
    Left,
    Middle,
    Right,
}

/// Random spawns stop once a lane holds this many vehicles.
pub const MAX_RANDOM_PER_LANE: usize = 2;

/// Relies on rand::thread_rng and Rng::gen_range: a value drawn from
/// `0..n`, which must not be empty.
#[verifier::external_body]
fn random_below(n: u32) -> (r: u32)
    requires
        n > 0,
    ensures
        r < n,
{
    rand::thread_rng().gen_range(0..n)
}

pub open spec fn route_of_lane(lane: LanePos) -> Route {
    match lane {
        LanePos::Right => Route::Right,
        LanePos::Middle => Route::Straight,
        LanePos::Left => Route::Left,
    }
}

pub open spec fn spawn_position(direction: Direction, distance: int) -> (int, int) {
    match direction {
        Direction::North => (0, -distance),
        Direction::South => (0, distance),
        Direction::East => (-distance, 0),
        Direction::West => (distance, 0),
    }
}

/// Whether `now` is still within `cooldown` of the spawn at `last`.
pub open spec fn cooling(last: Option<u64>, now: u64, cooldown: u64) -> bool {
    match last {
        Some(t) => (if now >= t {
            now - t
        } else {
            0
        }) < cooldown,
        None => false,
    }
}

/// The direction an arrow key spawns from: Up is North, Down South, Right
/// East, Left West.
pub open spec fn key_direction(key: Key) -> Option<Direction> {
    match key {
        Key::Up => Some(Direction::North),
        Key::Down => Some(Direction::South),
        Key::Right => Some(Direction::East),
        Key::Left => Some(Direction::West),
        _ => None,
    }
}

pub fn route_from_lane(lane: LanePos) -> (r: Route)
    ensures
        r == route_of_lane(lane),
{
    match lane {
        LanePos::Right => Route::Right,
        LanePos::Middle => Route::Straight,
        LanePos::Left => Route::Left,
    }
}

/// The lane for a draw from `0..3`.
pub fn lane_from_pick(pick: u32) -> (r: LanePos)
    ensures
        r == (if pick == 0 {
            LanePos::Right
        } else if pick == 1 {
            LanePos::Middle
        } else {
            LanePos::Left
        }),
{
    if pick == 0 {
        LanePos::Right
    } else if pick == 1 {
        LanePos::Middle
    } else {
        LanePos::Left
    }
}

/// The speed for a draw from `0..3`.
pub fn velocity_from_pick(pick: u32) -> (r: u32)
    ensures
        r == (if pick == 0 {
            SLOW
        } else if pick == 1 {
            MEDIUM
        } else {
            FAST
        }),
{
    if pick == 0 {
        SLOW
    } else if pick == 1 {
        MEDIUM
    } else {
        FAST
    }
}

/// The direction for a draw from `0..4`.
pub fn direction_from_pick(pick: u32) -> (r: Direction)
    ensures
        r == (if pick == 0 {
            Direction::North
        } else if pick == 1 {
            Direction::South
        } else if pick == 2 {
            Direction::East
        } else {
            Direction::West
        }),
{
    if pick == 0 {
        Direction::North
    } else if pick == 1 {
        Direction::South
    } else if pick == 2 {
        Direction::East
    } else {
        Direction::West
    }
}

/// A lane drawn at random.
pub fn random_lane() -> (r: LanePos) {
    lane_from_pick(random_below(3))
}

/// One of the three moving speeds, drawn at random.
pub fn random_velocity() -> (r: u32)
    ensures
        r == SLOW || r == MEDIUM || r == FAST,
{
    velocity_from_pick(random_below(3))
}

/// A direction drawn at random.
pub fn random_direction() -> (r: Direction) {
    direction_from_pick(random_below(4))
}

/// Where a vehicle entering from `direction` starts, `distance` before the
/// center.
pub fn get_spawn_position(direction: Direction, distance: i64) -> (r: (i64, i64))
    requires
        distance > i64::MIN,
    ensures
        (r.0 as int, r.1 as int) == spawn_position(direction, distance as int),
{
    match direction {
        Direction::North => (0, -distance),
        Direction::South => (0, distance),
        Direction::East => (-distance, 0),
        Direction::West => (distance, 0),
    }
}

/// Time since `last` (0 if the clock went back) is below `cooldown`.
fn in_cooldown(last: Option<u64>, now: u64, cooldown: u64) -> (r: bool)
    ensures
        r == cooling(last, now, cooldown),
{
    match last {
        Some(t) => {
            let elapsed = if now >= t {
                now - t
            } else {
                0
            };
            elapsed < cooldown
        },
        None => false,
    }
}

/// Spawns vehicles on key presses and at random.
pub struct InputHandler {
    /// Minimum time (ms) between two spawns from the same direction.
    pub spawn_cooldown_ms: u64,
    pub last_spawn_north: Option<u64>,
    pub last_spawn_south: Option<u64>,
    pub last_spawn_east: Option<u64>,
    pub last_spawn_west: Option<u64>,
    pub last_random_spawn: Option<u64>,
    /// Whether continuous random generation is on.
    pub random_generation_enabled: bool,
    /// The id of the next vehicle.
    pub next_vehicle_id: u32,
    /// Distance before the center (micrometers) at which vehicles start.
    pub spawn_distance: i64,
}

impl InputHandler {
    pub open spec fn last_spawn(self, d: Direction) -> Option<u64> {
        match d {
            Direction::North => self.last_spawn_north,
            Direction::South => self.last_spawn_south,
            Direction::East => self.last_spawn_east,
            Direction::West => self.last_spawn_west,
        }
    }

    /// The vehicle that `create_vehicle` makes for given draws.
    pub open spec fn spawned(
        self,
        direction: Direction,
        lane: LanePos,
        velocity: u32,
    ) -> Vehicle {
        let p = spawn_position(direction, self.spawn_distance as int);
        Vehicle {
            id: self.next_vehicle_id,
            position: (p.0 as i64, p.1 as i64),
            velocity,
            route: route_of_lane(lane),
            direction,
            distance_to_intersection: self.spawn_distance,
            active: true,
            time_elapsed: 0,
            has_turned: false,
            prev_direction: direction,
        }
    }

    pub fn new(spawn_cooldown_ms: u64, spawn_distance: i64) -> (r: Self)
        ensures
            r.spawn_cooldown_ms == spawn_cooldown_ms,
            r.spawn_distance == spawn_distance,
            r.last_spawn_north.is_none(),
            r.last_spawn_south.is_none(),
            r.last_spawn_east.is_none(),
            r.last_spawn_west.is_none(),
            r.last_random_spawn.is_none(),
            !r.random_generation_enabled,
            r.next_vehicle_id == 1,
    {
        InputHandler {
            spawn_cooldown_ms,
            last_spawn_north: None,
            last_spawn_south: None,
            last_spawn_east: None,
            last_spawn_west: None,
            last_random_spawn: None,
            random_generation_enabled: false,
            next_vehicle_id: 1,
            spawn_distance,
        }
    }

    /// Makes the next vehicle for `direction` in `lane` at `velocity`, or none
    /// once the ids have run out (ids are never reused).
    pub fn create_vehicle_with(&mut self, direction: Direction, lane: LanePos, velocity: u32) -> (r:
        Option<Vehicle>)
        requires
            old(self).spawn_distance > i64::MIN,
        ensures
            old(self).next_vehicle_id < u32::MAX ==> r == Some(
                old(self).spawned(direction, lane, velocity),
            ) && *final(self) == (InputHandler {
                next_vehicle_id: (old(self).next_vehicle_id + 1) as u32,
                ..*old(self)
            }),
            old(self).next_vehicle_id == u32::MAX ==> r.is_none() && *final(self) == *old(self),
    {
        if self.next_vehicle_id == u32::MAX {
            return None;
        }
        let id = self.next_vehicle_id;
        self.next_vehicle_id = self.next_vehicle_id + 1;
        let route = route_from_lane(lane);
        let position = get_spawn_position(direction, self.spawn_distance);
        Some(Vehicle::new(id, position, velocity, route, direction, self.spawn_distance))
    }

    /// Makes the next vehicle for `direction`, in a random lane at a random
    /// speed.
    pub fn create_vehicle(&mut self, direction: Direction) -> (r: Option<Vehicle>)
        requires
            old(self).spawn_distance > i64::MIN,
        ensures
            old(self).next_vehicle_id < u32::MAX ==> (exists|lane: LanePos, v: u32|
                r == Some(#[trigger] old(self).spawned(direction, lane, v)) && (v == SLOW || v
                    == MEDIUM || v == FAST)) && *final(self) == (InputHandler {
                next_vehicle_id: (old(self).next_vehicle_id + 1) as u32,
                ..*old(self)
            }),
            old(self).next_vehicle_id == u32::MAX ==> r.is_none() && *final(self) == *old(self),
    {
        let lane = random_lane();
        let velocity = random_velocity();
        self.create_vehicle_with(direction, lane, velocity)
    }

    fn set_last_spawn(&mut self, direction: Direction, now_ms: u64)
        ensures
            final(self).last_spawn(direction) == Some(now_ms),
            forall|d: Direction| d != direction ==> final(self).last_spawn(d) == old(self).last_spawn(d),
            final(self).spawn_cooldown_ms == old(self).spawn_cooldown_ms,
            final(self).last_random_spawn == old(self).last_random_spawn,
            final(self).random_generation_enabled == old(self).random_generation_enabled,
            final(self).next_vehicle_id == old(self).next_vehicle_id,
            final(self).spawn_distance == old(self).spawn_distance,
    {
        match direction {
            Direction::North => self.last_spawn_north = Some(now_ms),
            Direction::South => self.last_spawn_south = Some(now_ms),
            Direction::East => self.last_spawn_east = Some(now_ms),
            Direction::West => self.last_spawn_west = Some(now_ms),
        }
    }

    fn last_spawn_of(&self, direction: Direction) -> (r: Option<u64>)
        ensures
            r == self.last_spawn(direction),
    {
        match direction {
            Direction::North => self.last_spawn_north,
            Direction::South => self.last_spawn_south,
            Direction::East => self.last_spawn_east,
            Direction::West => self.last_spawn_west,
        }
    }

    /// What `try_spawn_vehicle` promises for `direction` at `now`, from state
    /// `pre` to state `post` with result `r`.
    pub open spec fn spawn_outcome(
        pre: InputHandler,
        post: InputHandler,
        direction: Direction,
        now: u64,
        r: Seq<Vehicle>,
    ) -> bool {
        if cooling(pre.last_spawn(direction), now, pre.spawn_cooldown_ms) {
            r.len() == 0 && post == pre
        } else {
            &&& post.last_spawn(direction) == Some(now)
            &&& forall|d: Direction| d != direction ==> post.last_spawn(d) == pre.last_spawn(d)
            &&& post.spawn_cooldown_ms == pre.spawn_cooldown_ms
            &&& post.last_random_spawn == pre.last_random_spawn
            &&& post.random_generation_enabled == pre.random_generation_enabled
            &&& post.spawn_distance == pre.spawn_distance
            &&& if pre.next_vehicle_id < u32::MAX {
                &&& post.next_vehicle_id == pre.next_vehicle_id + 1
                &&& r.len() == 1
                &&& exists|lane: LanePos, v: u32|
                    r[0] == #[trigger] pre.spawned(direction, lane, v) && (v == SLOW || v == MEDIUM
                        || v == FAST)
            } else {
                post.next_vehicle_id == pre.next_vehicle_id && r.len() == 0
            }
        }
    }

    /// Spawns a vehicle from `direction` unless the direction is still in its
    /// cooldown; a spawn restarts the cooldown.
    pub fn try_spawn_vehicle(&mut self, direction: Direction, now_ms: u64) -> (r: Vec<Vehicle>)
        requires
            old(self).spawn_distance > i64::MIN,
        ensures
            InputHandler::spawn_outcome(*old(self), *final(self), direction, now_ms, r@),
    {
        let last = self.last_spawn_of(direction);
        if in_cooldown(last, now_ms, self.spawn_cooldown_ms) {
            return Vec::new();
        }
        let ghost pre = *self;
        self.set_last_spawn(direction, now_ms);
        let ghost mid = *self;
        let mut out: Vec<Vehicle> = Vec::new();
        let made = self.create_vehicle(direction);
        match made {
            Some(v) => out.push(v),
            None => {},
        }
        proof {
            if pre.next_vehicle_id < u32::MAX {
                let (lane, v) = choose|lane: LanePos, v: u32|
                    made == Some(#[trigger] mid.spawned(direction, lane, v)) && (v == SLOW || v
                        == MEDIUM || v == FAST);
                assert(mid.spawned(direction, lane, v) == pre.spawned(direction, lane, v));
                assert(out@[0] == pre.spawned(direction, lane, v));
            }
        }
        out
    }

    /// Arrow keys spawn from their direction (see [`key_direction`]); R
    /// switches random generation; other keys do nothing.
    pub fn handle_keypress(&mut self, key: Key, now_ms: u64) -> (r: Vec<Vehicle>)
        requires
            old(self).spawn_distance > i64::MIN,
        ensures
            key_direction(key).is_some() ==> InputHandler::spawn_outcome(
                *old(self),
                *final(self),
                key_direction(key).unwrap(),
                now_ms,
                r@,
            ),
            key == Key::R ==> r@.len() == 0 && *final(self) == (InputHandler {
                random_generation_enabled: !old(self).random_generation_enabled,
                ..*old(self)
            }),
            key == Key::Other ==> r@.len() == 0 && *final(self) == *old(self),
    {
        match key {
            Key::Up => self.try_spawn_vehicle(Direction::North, now_ms),
            Key::Down => self.try_spawn_vehicle(Direction::South, now_ms),
            Key::Right => self.try_spawn_vehicle(Direction::East, now_ms),
            Key::Left => self.try_spawn_vehicle(Direction::West, now_ms),
            Key::R => {
                self.random_generation_enabled = !self.random_generation_enabled;
                Vec::new()
            },
            Key::Other => Vec::new(),
        }
    }

    /// What a random spawn from `direction` at `now` does, from state `pre`
    /// to `post` with result `r`: nothing while switched off or within `rate`
    /// ms of the last random spawn; otherwise the spawn time is taken, and the
    /// next vehicle is made unless the lane of `direction` already holds the
    /// maximum or the ids have run out.
    pub open spec fn random_outcome(
        pre: InputHandler,
        post: InputHandler,
        rate: u64,
        now: u64,
        intersection: Intersection,
        direction: Direction,
        r: Option<Vehicle>,
    ) -> bool {
        if !pre.random_generation_enabled || cooling(pre.last_random_spawn, now, rate) {
            r.is_none() && post == pre
        } else {
            let taken = InputHandler { last_random_spawn: Some(now), ..pre };
            if intersection.lanes@[lane_index(direction)]@.len() >= MAX_RANDOM_PER_LANE
                || pre.next_vehicle_id == u32::MAX {
                r.is_none() && post == taken
            } else {
                &&& post == InputHandler { next_vehicle_id: (pre.next_vehicle_id + 1) as u32, ..taken }
                &&& exists|lane: LanePos, v: u32|
                    r == Some(#[trigger] pre.spawned(direction, lane, v)) && (v == SLOW || v
                        == MEDIUM || v == FAST)
            }
        }
    }

    /// The random-generation decision once a direction has been drawn (see
    /// [`InputHandler::random_outcome`]).
    pub fn random_spawn_for(
        &mut self,
        random_spawn_rate_ms: u64,
        now_ms: u64,
        intersection: &Intersection,
        direction: Direction,
    ) -> (r: Option<Vehicle>)
        requires
            old(self).spawn_distance > i64::MIN,
            intersection.wf(),
        ensures
            InputHandler::random_outcome(
                *old(self),
                *final(self),
                random_spawn_rate_ms,
                now_ms,
                *intersection,
                direction,
                r,
            ),
    {
        if !self.random_generation_enabled {
            return None;
        }
        if in_cooldown(self.last_random_spawn, now_ms, random_spawn_rate_ms) {
            return None;
        }
        let ghost pre = *self;
        self.last_random_spawn = Some(now_ms);
        if intersection.vehicles_in_lane(direction) >= MAX_RANDOM_PER_LANE {
            return None;
        }
        let ghost mid = *self;
        let made = self.create_vehicle(direction);
        proof {
            if pre.next_vehicle_id < u32::MAX {
                let (lane, v) = choose|lane: LanePos, v: u32|
                    made == Some(#[trigger] mid.spawned(direction, lane, v)) && (v == SLOW || v
                        == MEDIUM || v == FAST);
                assert(mid.spawned(direction, lane, v) == pre.spawned(direction, lane, v));
            }
        }
        made
    }

    /// Called every frame: possibly spawns a vehicle from a direction drawn at
    /// random (see [`InputHandler::random_outcome`]). While switched on and
    /// past the interval, a vehicle is certainly made when every lane holds
    /// fewer than the maximum and ids remain.
    pub fn update_random_generation(
        &mut self,
        random_spawn_rate_ms: u64,
        now_ms: u64,
        intersection: &Intersection,
    ) -> (r: Option<Vehicle>)
        requires
            old(self).spawn_distance > i64::MIN,
            intersection.wf(),
        ensures
            exists|d: Direction|
                #[trigger] InputHandler::random_outcome(
                    *old(self),
                    *final(self),
                    random_spawn_rate_ms,
                    now_ms,
                    *intersection,
                    d,
                    r,
                ),
            old(self).random_generation_enabled && !cooling(
                old(self).last_random_spawn,
                now_ms,
                random_spawn_rate_ms,
            ) && old(self).next_vehicle_id < u32::MAX && (forall|d: Direction|
                #[trigger] intersection.lanes@[lane_index(d)]@.len() < MAX_RANDOM_PER_LANE)
                ==> r.is_some(),
    {
        if !self.random_generation_enabled {
            assert(InputHandler::random_outcome(
                *old(self),
                *self,
                random_spawn_rate_ms,
                now_ms,
                *intersection,
                Direction::North,
                None,
            ));
            return None;
        }
        let direction = random_direction();
        self.random_spawn_for(random_spawn_rate_ms, now_ms, intersection, direction)
    }

    /// Forgets all spawn times and switches random generation off.
    pub fn reset(&mut self)
        ensures
            *final(self) == (InputHandler {
                last_spawn_north: None,
                last_spawn_south: None,
                last_spawn_east: None,
                last_spawn_west: None,
                last_random_spawn: None,
                random_generation_enabled: false,
                ..*old(self)
            }),
    {
        self.last_spawn_north = None;
        self.last_spawn_south = None;
        self.last_spawn_east = None;
        self.last_spawn_west = None;
        self.last_random_spawn = None;
        self.random_generation_enabled = false;
    }
}

} // verus!

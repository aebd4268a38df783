//! Discrete speeds and stateless physics helpers.
use vstd::prelude::*;
use crate::vehicle::{sq_dist, sq_distance, step_along, Direction, Vehicle, MAX_TICK_MS, WORLD_LIMIT};

verus! {

/// Slow speed: 5 m/s, in mm/s.
pub const SLOW: u32 = 5_000;

/// Medium speed: 10 m/s, in mm/s.
pub const MEDIUM: u32 = 10_000;

/// Fast speed: 15 m/s, in mm/s.
pub const FAST: u32 = 15_000;

/// Stateless helpers parameterised by the safe distance and the boundary
/// limit, both in micrometers.
#[derive(Debug)]
pub struct Physics {
    pub safe_distance: u32,
    pub boundary_limit: u32,
}

impl Physics {
    pub fn new(safe_distance: u32, boundary_limit: u32) -> (r: Self)
        ensures
            r.safe_distance == safe_distance,
            r.boundary_limit == boundary_limit,
    {
        Physics { safe_distance, boundary_limit }
    }

    /// Time in whole milliseconds (rounded down) to cover `distance`
    /// micrometers at `velocity` mm/s; none for a vehicle that does not move.
    pub fn calculate_time(&self, distance: u64, velocity: u32) -> (r: Option<u64>)
        ensures
            velocity > 0 ==> r == Some((distance / velocity as u64) as u64),
            velocity == 0 ==> r.is_none(),
    {
        if velocity > 0 {
            Some(distance / velocity as u64)
        } else {
            None
        }
    }

    /// The two vehicles are at least the safe distance apart.
    pub fn is_safe_distance(&self, vehicle1: &Vehicle, vehicle2: &Vehicle) -> (r: bool)
        ensures
            r == (sq_dist(*vehicle1, *vehicle2) >= self.safe_distance as int
                * self.safe_distance as int),
    {
        !vehicle1.is_too_close(vehicle2, self.safe_distance)
    }

    /// The vehicle is further than the boundary limit past the center.
    pub fn is_out_of_bounds(&self, vehicle: &Vehicle) -> (r: bool)
        ensures
            r == (vehicle.distance_to_intersection < -(self.boundary_limit as int)),
    {
        vehicle.distance_to_intersection < -(self.boundary_limit as i64)
    }
}

/// `r` is the integer square root of `n` (rounded down).
pub open spec fn is_floor_sqrt(r: int, n: int) -> bool {
    0 <= r && r * r <= n < (r + 1) * (r + 1)
}

/// The integer square root of `n`, rounded down.
pub fn floor_sqrt(n: u128) -> (r: u64)
    ensures
        is_floor_sqrt(r as int, n as int),
{
    let mut lo: u128 = 0;
    let mut hi: u128 = 0x1_0000_0000_0000_0000;
    assert(hi * hi > u128::MAX) by (nonlinear_arith)
        requires
            hi == 0x1_0000_0000_0000_0000u128,
    ;
    while hi - lo > 1
        invariant
            lo < hi <= 0x1_0000_0000_0000_0000,
            lo * lo <= n,
            n < hi * hi,
        decreases hi - lo,
    {
        let mid = lo + (hi - lo) / 2;
        assert(mid * mid < 0x1_0000_0000_0000_0000 * 0x1_0000_0000_0000_0000) by (nonlinear_arith)
            requires
                mid < 0x1_0000_0000_0000_0000,
        ;
        assert(mid * mid <= u128::MAX) by (nonlinear_arith)
            requires
                mid < 0x1_0000_0000_0000_0000,
                mid * mid < 0x1_0000_0000_0000_0000 * 0x1_0000_0000_0000_0000,
        ;
        if mid * mid <= n {
            lo = mid;
        } else {
            hi = mid;
        }
    }
    assert(hi == lo + 1);
    lo as u64
}

/// The safe following distance at `velocity`: the safe distance plus the
/// distance covered in 0.8 s plus 2 m (micrometers).
pub open spec fn following_distance(safe: int, velocity: int) -> int {
    safe + velocity * 800 + 2_000_000
}

/// The speed that the advanced distance keeping picks behind `leader`.
pub open spec fn advanced_speed(
    safe: int,
    vehicle: Vehicle,
    leader: Vehicle,
    target: int,
) -> int {
    let d2 = sq_dist(vehicle, leader);
    let f = following_distance(safe, vehicle.velocity as int);
    if d2 < f * f {
        if d2 < safe * safe {
            0
        } else if 25 * d2 < 16 * (f * f) {
            leader.velocity * 3 / 10
        } else {
            leader.velocity * 6 / 10
        }
    } else if 4 * d2 > 9 * (f * f) {
        target * 9 / 10
    } else {
        leader.velocity as int
    }
}

/// Where a vehicle is after `time` ms at its speed along its heading.
pub open spec fn future_position(v: Vehicle, time: int) -> (int, int) {
    step_along(v.pos(), v.direction, v.velocity * time)
}

pub open spec fn sq_norm(a: (int, int), b: (int, int)) -> int {
    (a.0 - b.0) * (a.0 - b.0) + (a.1 - b.1) * (a.1 - b.1)
}

/// `other` threatens `vehicle` within `time` ms: it is another active vehicle
/// whose predicted position comes within 1.5 safe distances of `vehicle`'s.
pub open spec fn threatens(vehicle: Vehicle, other: Vehicle, time: int, safe: int) -> bool {
    &&& other.id != vehicle.id
    &&& other.active
    &&& 4 * sq_norm(future_position(vehicle, time), future_position(other, time)) < 9 * (safe
        * safe)
}

/// The reduced speed against a threat at predicted squared distance `d2`:
/// the speed scaled by the distance over two safe distances, at most halved.
pub open spec fn reduced_speed(velocity: int, d2: int, root: int, safe: int) -> int {
    if d2 < safe * safe {
        velocity * root / (2 * safe)
    } else {
        velocity / 2
    }
}

proof fn lemma_future_bounds(v: Vehicle, time: u32)
    requires
        v.in_world(),
        time <= MAX_TICK_MS,
    ensures
        -WORLD_LIMIT - u32::MAX as int * MAX_TICK_MS as int <= future_position(v, time as int).0
            <= WORLD_LIMIT + u32::MAX as int * MAX_TICK_MS as int,
        -WORLD_LIMIT - u32::MAX as int * MAX_TICK_MS as int <= future_position(v, time as int).1
            <= WORLD_LIMIT + u32::MAX as int * MAX_TICK_MS as int,
{
    assert(0 <= v.velocity as int * time as int <= u32::MAX as int * MAX_TICK_MS as int)
        by (nonlinear_arith)
        requires
            time <= MAX_TICK_MS,
            v.velocity <= u32::MAX,
    ;
}

impl Physics {
    /// Stops `vehicle` when it is closer than the safe distance to its
    /// leader; otherwise sets the target speed.
    pub fn enforce_safe_distance(
        &self,
        vehicle: &mut Vehicle,
        leading_vehicle: Option<&Vehicle>,
        target_velocity: u32,
    )
        ensures
            *final(vehicle) == (Vehicle {
                velocity: match leading_vehicle {
                    Some(l) => if sq_dist(*old(vehicle), *l) < self.safe_distance as int
                        * self.safe_distance as int {
                        0
                    } else {
                        target_velocity
                    },
                    None => target_velocity,
                },
                ..*old(vehicle)
            }),
    {
        match leading_vehicle {
            Some(leader) => {
                if !self.is_safe_distance(vehicle, leader) {
                    vehicle.stop();
                } else {
                    vehicle.set_velocity(target_velocity);
                }
            },
            None => vehicle.set_velocity(target_velocity),
        }
    }

    /// Distance keeping with graded speeds: behind a leader within the
    /// following distance the speed drops to a fraction of the leader's
    /// (nothing inside the safe distance, 30% inside 0.8 following
    /// distances, else 60%); well beyond 1.5 following distances it is 90% of
    /// the target; in between it matches the leader. Fractions of a mm/s are
    /// dropped.
    pub fn enforce_safe_distance_advanced(
        &self,
        vehicle: &mut Vehicle,
        leading_vehicle: Option<&Vehicle>,
        target_velocity: u32,
    )
        requires
            old(vehicle).in_world(),
            leading_vehicle.is_some() ==> leading_vehicle.unwrap().in_world(),
        ensures
            *final(vehicle) == (Vehicle {
                velocity: match leading_vehicle {
                    Some(l) => advanced_speed(
                        self.safe_distance as int,
                        *old(vehicle),
                        *l,
                        target_velocity as int,
                    ) as u32,
                    None => target_velocity,
                },
                ..*old(vehicle)
            }),
    {
        match leading_vehicle {
            Some(leader) => {
                let d2 = sq_distance(vehicle, leader);
                let f: u128 = self.safe_distance as u128 + vehicle.velocity as u128 * 800
                    + 2_000_000;
                let s: u128 = self.safe_distance as u128;
                proof {
                    let m = u32::MAX as int;
                    assert(f <= 3_500_000_000_000);
                    assert(0 <= f * f <= 3_500_000_000_000 * 3_500_000_000_000)
                        by (nonlinear_arith)
                        requires
                            0 <= f <= 3_500_000_000_000,
                    ;
                    assert(0 <= s * s <= m * m) by (nonlinear_arith)
                        requires
                            0 <= s <= m,
                    ;
                }
                let f2 = f * f;
                let v: u32 = if d2 < f2 {
                    if d2 < s * s {
                        0
                    } else if 25 * d2 < 16 * f2 {
                        ((leader.velocity as u64) * 3 / 10) as u32
                    } else {
                        ((leader.velocity as u64) * 6 / 10) as u32
                    }
                } else if 4 * d2 > 9 * f2 {
                    ((target_velocity as u64) * 9 / 10) as u32
                } else {
                    leader.velocity
                };
                vehicle.set_velocity(v);
            },
            None => vehicle.set_velocity(target_velocity),
        }
    }

    /// Predicted base position of `vehicle` after `time` ms.
    pub fn predict_future_position(&self, vehicle: &Vehicle, time: u32) -> (r: (i64, i64))
        requires
            vehicle.in_world(),
            time <= MAX_TICK_MS,
        ensures
            (r.0 as int, r.1 as int) == future_position(*vehicle, time as int),
    {
        proof {
            lemma_future_bounds(*vehicle, time);
            assert(0 <= vehicle.velocity as int * time as int <= u32::MAX as int
                * MAX_TICK_MS as int) by (nonlinear_arith)
                requires
                    time <= MAX_TICK_MS,
                    vehicle.velocity <= u32::MAX,
            ;
        }
        let distance: i64 = vehicle.velocity as i64 * time as i64;
        let (x, y) = vehicle.position;
        match vehicle.direction {
            Direction::North => (x, y + distance),
            Direction::South => (x, y - distance),
            Direction::East => (x + distance, y),
            Direction::West => (x - distance, y),
        }
    }

    /// Looks `prediction_time` ms ahead: at the first other vehicle that then
    /// comes within 1.5 safe distances, `vehicle` slows down (see
    /// [`reduced_speed`]) and the answer is true; with no such vehicle it is
    /// left as it is and the answer is false.
    pub fn predict_and_prevent_collision(
        &self,
        vehicle: &mut Vehicle,
        other_vehicles: &Vec<Vehicle>,
        prediction_time: u32,
    ) -> (r: bool)
        requires
            old(vehicle).in_world(),
            prediction_time <= MAX_TICK_MS,
            forall|j: int| 0 <= j < other_vehicles@.len() ==> (#[trigger] other_vehicles@[j]).in_world(),
        ensures
            !r ==> *final(vehicle) == *old(vehicle) && forall|j: int|
                0 <= j < other_vehicles@.len() ==> !threatens(
                    *old(vehicle),
                    #[trigger] other_vehicles@[j],
                    prediction_time as int,
                    self.safe_distance as int,
                ),
            r ==> exists|j: int, root: int|
                0 <= j < other_vehicles@.len() && threatens(
                    *old(vehicle),
                    #[trigger] other_vehicles@[j],
                    prediction_time as int,
                    self.safe_distance as int,
                ) && (forall|m: int|
                    0 <= m < j ==> !threatens(
                        *old(vehicle),
                        #[trigger] other_vehicles@[m],
                        prediction_time as int,
                        self.safe_distance as int,
                    )) && #[trigger] is_floor_sqrt(
                    root,
                    sq_norm(
                        future_position(*old(vehicle), prediction_time as int),
                        future_position(other_vehicles@[j], prediction_time as int),
                    ),
                ) && *final(vehicle) == (Vehicle {
                    velocity: reduced_speed(
                        old(vehicle).velocity as int,
                        sq_norm(
                            future_position(*old(vehicle), prediction_time as int),
                            future_position(other_vehicles@[j], prediction_time as int),
                        ),
                        root,
                        self.safe_distance as int,
                    ) as u32,
                    ..*old(vehicle)
                }),
    {
        let me = self.predict_future_position(vehicle, prediction_time);
        proof {
            lemma_future_bounds(*vehicle, prediction_time);
        }
        let s: u128 = self.safe_distance as u128;
        proof {
            assert(0 <= s * s <= u32::MAX as int * u32::MAX as int) by (nonlinear_arith)
                requires
                    0 <= s <= u32::MAX,
            ;
        }
        let s2 = s * s;
        let mut j: usize = 0;
        while j < other_vehicles.len()
            invariant
                j <= other_vehicles@.len(),
                *vehicle == *old(vehicle),
                old(vehicle).in_world(),
                prediction_time <= MAX_TICK_MS,
                (me.0 as int, me.1 as int) == future_position(*vehicle, prediction_time as int),
                -WORLD_LIMIT - u32::MAX as int * MAX_TICK_MS as int <= me.0 <= WORLD_LIMIT
                    + u32::MAX as int * MAX_TICK_MS as int,
                -WORLD_LIMIT - u32::MAX as int * MAX_TICK_MS as int <= me.1 <= WORLD_LIMIT
                    + u32::MAX as int * MAX_TICK_MS as int,
                s2 == self.safe_distance as int * self.safe_distance as int,
                s == self.safe_distance,
                s2 <= u32::MAX as int * u32::MAX as int,
                forall|m: int|
                    0 <= m < other_vehicles@.len() ==> (#[trigger] other_vehicles@[m]).in_world(),
                forall|m: int|
                    0 <= m < j ==> !threatens(
                        *old(vehicle),
                        #[trigger] other_vehicles@[m],
                        prediction_time as int,
                        self.safe_distance as int,
                    ),
            decreases other_vehicles@.len() - j,
        {
            let other = &other_vehicles[j];
            if other.id != vehicle.id && other.active {
                let them = self.predict_future_position(other, prediction_time);
                proof {
                    lemma_future_bounds(*other, prediction_time);
                }
                let dx: i128 = me.0 as i128 - them.0 as i128;
                let dy: i128 = me.1 as i128 - them.1 as i128;
                proof {
                    let b = 2 * (WORLD_LIMIT + u32::MAX as int * MAX_TICK_MS as int);
                    assert(b * b <= 2_000_000_000_000_000_000_000_000_000_000_000)
                        by (nonlinear_arith)
                        requires
                            b == 32_923_764_524_000_000,
                    ;
                    assert(0 <= dx * dx <= b * b) by (nonlinear_arith)
                        requires
                            -b <= dx <= b,
                    ;
                    assert(0 <= dy * dy <= b * b) by (nonlinear_arith)
                        requires
                            -b <= dy <= b,
                    ;
                }
                let d2: u128 = (dx * dx + dy * dy) as u128;
                if 4 * d2 < 9 * s2 {
                    let root = floor_sqrt(d2);
                    let v = vehicle.velocity as u128;
                    let nv: u128 = if d2 < s2 {
                        proof {
                            assert((root as int) * (root as int) <= d2 < s2);
                            assert(root < s) by (nonlinear_arith)
                                requires
                                    (root as int) * (root as int) < s * s,
                                    s >= 0,
                                    root >= 0,
                            ;
                            assert(v * root <= u32::MAX as int * u32::MAX as int)
                                by (nonlinear_arith)
                                requires
                                    v <= u32::MAX,
                                    root < s,
                                    s <= u32::MAX,
                            ;
                        }
                        v * (root as u128) / (2 * s)
                    } else {
                        v / 2
                    };
                    proof {
                        if d2 < s2 {
                            assert(root < s) by (nonlinear_arith)
                                requires
                                    (root as int) * (root as int) <= d2,
                                    d2 < s * s,
                                    s >= 0,
                                    root >= 0,
                            ;
                            assert(v * root / (2 * s) <= v) by (nonlinear_arith)
                                requires
                                    root < s,
                                    s > 0,
                                    v >= 0,
                                    root >= 0,
                            ;
                        }
                    }
                    proof {
                        let d = sq_norm(
                            future_position(*old(vehicle), prediction_time as int),
                            future_position(other_vehicles@[j as int], prediction_time as int),
                        );
                        assert(d == d2);
                        assert(nv == reduced_speed(v as int, d, root as int, s as int));
                        assert(nv <= u32::MAX);
                        assert(threatens(
                            *old(vehicle),
                            other_vehicles@[j as int],
                            prediction_time as int,
                            self.safe_distance as int,
                        ));
                        assert(is_floor_sqrt(root as int, d));
                    }
                    vehicle.set_velocity(nv as u32);
                    return true;
                }
            }
            j = j + 1;
        }
        false
    }

    /// The base speed scaled down near the center: halved within 20 m,
    /// three quarters within 50 m (fractions of a mm/s dropped).
    pub fn get_adjusted_velocity(&self, distance_to_intersection: i64, base_velocity: u32) -> (r:
        u32)
        ensures
            r == if distance_to_intersection < 20_000_000 {
                base_velocity as int / 2
            } else if distance_to_intersection < 50_000_000 {
                base_velocity as int * 3 / 4
            } else {
                base_velocity as int
            },
    {
        if distance_to_intersection < 20_000_000 {
            base_velocity / 2
        } else if distance_to_intersection < 50_000_000 {
            ((base_velocity as u64) * 3 / 4) as u32
        } else {
            base_velocity
        }
    }
}

} // verus!

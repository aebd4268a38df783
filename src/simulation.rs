//! The simulation: the intersection, the count of vehicles ever added, and
//! the statistics it reports to.
use vstd::prelude::*;
use crate::arbitration::lane_index;
use crate::intersection::{close_pairs, flat, lane_after, prefix_flat, tracker_step, Intersection};
use crate::stats::{max_with, min_with, StatisticsManager};
use crate::vehicle::{Vehicle, MAX_TICK_MS};

verus! {

/// The fastest speed after observing every vehicle of `vs`, in order.
pub open spec fn max_over(start: Option<u32>, vs: Seq<Vehicle>) -> Option<u32>
    decreases vs.len(),
{
    if vs.len() == 0 {
        start
    } else {
        max_with(max_over(start, vs.drop_last()), vs.last().velocity)
    }
}

/// The slowest speed after observing every vehicle of `vs`, in order.
pub open spec fn min_over(start: Option<u32>, vs: Seq<Vehicle>) -> Option<u32>
    decreases vs.len(),
{
    if vs.len() == 0 {
        start
    } else {
        min_with(min_over(start, vs.drop_last()), vs.last().velocity)
    }
}

#[derive(Debug)]
pub struct Simulation {
    pub intersection: Intersection,
    /// Vehicles ever added (saturating at the largest `u64`).
    pub total_vehicles: u64,
    pub stats: StatisticsManager,
}

impl Simulation {
    pub open spec fn wf(self) -> bool {
        self.intersection.wf()
    }

    pub fn new(safe_distance: u32) -> (r: Self)
        ensures
            r.wf(),
            r.intersection.safe_distance == safe_distance,
            forall|l: int| 0 <= l < 4 ==> (#[trigger] r.intersection.lanes@[l])@.len() == 0,
            r.total_vehicles == 0,
            r.stats.num_close == 0,
    {
        Simulation {
            intersection: Intersection::new(safe_distance),
            total_vehicles: 0,
            stats: StatisticsManager::new(),
        }
    }

    /// Adds a vehicle to the lane of its heading.
    pub fn add_vehicle(&mut self, vehicle: Vehicle)
        requires
            old(self).wf(),
            vehicle.in_world(),
        ensures
            final(self).wf(),
            forall|l: int|
                0 <= l < 4 ==> (#[trigger] final(self).intersection.lanes@[l])@ == if l
                    == lane_index(vehicle.direction) {
                    old(self).intersection.lanes@[l]@.push(vehicle)
                } else {
                    old(self).intersection.lanes@[l]@
                },
            final(self).total_vehicles == if old(self).total_vehicles < u64::MAX {
                old(self).total_vehicles + 1
            } else {
                u64::MAX as int
            },
            final(self).stats.num_close == old(self).stats.num_close,
            final(self).stats.num_cars == if final(self).intersection.count_all() <= usize::MAX {
                final(self).intersection.count_all()
            } else {
                usize::MAX as int
            },
            final(self).stats.max_velo == old(self).stats.max_velo,
            final(self).stats.min_velo == old(self).stats.min_velo,
            final(self).intersection.safe_distance == old(self).intersection.safe_distance,
            final(self).intersection.physics == old(self).intersection.physics,
            final(self).intersection.intersection_entry_distance == old(
                self,
            ).intersection.intersection_entry_distance,
            final(self).intersection.recorded_close_calls == old(
                self,
            ).intersection.recorded_close_calls,
    {
        let direction = vehicle.direction;
        if self.intersection.add_vehicle(direction, vehicle) {
            self.total_vehicles = self.total_vehicles.saturating_add(1);
        }
        let count = self.intersection.total_vehicles();
        self.stats.update_car_count(count);
    }

    pub fn intersection(&self) -> (r: &Intersection)
        ensures
            r == &self.intersection,
    {
        &self.intersection
    }

    /// Runs one tick; reports the new close calls, the speeds of the
    /// vehicles still in the lanes and their number to the statistics.
    pub fn update(&mut self, delta_time: u32)
        requires
            old(self).wf(),
            delta_time <= MAX_TICK_MS,
        ensures
            final(self).wf(),
            final(self).total_vehicles == old(self).total_vehicles,
            forall|l: int|
                0 <= l < 4 ==> (#[trigger] final(self).intersection.lanes@[l])@ == lane_after(
                    old(self).intersection.snapshot(),
                    l,
                    old(self).intersection.safe_distance as int,
                    old(self).intersection.intersection_entry_distance as int,
                    old(self).intersection.physics.boundary_limit as int,
                    delta_time,
                ),
            final(self).intersection.safe_distance == old(self).intersection.safe_distance,
            final(self).intersection.physics == old(self).intersection.physics,
            final(self).intersection.intersection_entry_distance == old(
                self,
            ).intersection.intersection_entry_distance,
            final(self).intersection.recorded_close_calls@.to_set() == tracker_step(
                old(self).intersection.recorded_close_calls@.to_set(),
                close_pairs(
                    flat(old(self).intersection.snapshot()),
                    old(self).intersection.safe_distance as int,
                ),
            ).0,
            final(self).stats.max_velo == max_over(
                old(self).stats.max_velo,
                flat(final(self).intersection.snapshot()),
            ),
            final(self).stats.min_velo == min_over(
                old(self).stats.min_velo,
                flat(final(self).intersection.snapshot()),
            ),
            final(self).stats.num_cars == if final(self).intersection.count_all() <= usize::MAX {
                final(self).intersection.count_all()
            } else {
                usize::MAX as int
            },
            final(self).stats.num_close == if old(self).stats.num_close + close_pairs(
                flat(old(self).intersection.snapshot()),
                old(self).intersection.safe_distance as int,
            ).difference(old(self).intersection.recorded_close_calls@.to_set()).len()
                <= u64::MAX {
                old(self).stats.num_close + close_pairs(
                    flat(old(self).intersection.snapshot()),
                    old(self).intersection.safe_distance as int,
                ).difference(old(self).intersection.recorded_close_calls@.to_set()).len()
            } else {
                u64::MAX as int
            },
    {
        let newly = self.intersection.update(delta_time);
        let ghost after = self.intersection;
        let ghost start = self.stats.num_close;
        let ghost max0 = self.stats.max_velo;
        let ghost min0 = self.stats.min_velo;
        let ghost snap = after.snapshot();
        let mut k: usize = 0;
        while k < newly.len()
            invariant
                k <= newly@.len(),
                self.wf(),
                self.intersection == after,
                self.total_vehicles == old(self).total_vehicles,
                self.stats.max_velo == max0,
                self.stats.min_velo == min0,
                self.stats.num_close == if start + k <= u64::MAX {
                    start + k
                } else {
                    u64::MAX as int
                },
            decreases newly@.len() - k,
        {
            self.stats.record_close_call();
            k = k + 1;
        }
        proof {
            newly@.unique_seq_to_set();
        }
        let mut l: usize = 0;
        while l < 4
            invariant
                l <= 4,
                snap == after.snapshot(),
                self.stats.max_velo == max_over(max0, prefix_flat(snap, l as int)),
                self.stats.min_velo == min_over(min0, prefix_flat(snap, l as int)),
                self.wf(),
                self.intersection == after,
                self.total_vehicles == old(self).total_vehicles,
                self.stats.num_close == if start + newly@.len() <= u64::MAX {
                    start + newly@.len()
                } else {
                    u64::MAX as int
                },
            decreases 4 - l,
        {
            let lane = &self.intersection.lanes[l];
            assert(lane@ == snap[l as int]);
            let mut j: usize = 0;
            while j < lane.len()
                invariant
                    j <= lane@.len(),
                    l < 4,
                    snap == after.snapshot(),
                    lane@ == snap[l as int],
                    self.stats.max_velo == max_over(
                        max0,
                        prefix_flat(snap, l as int) + lane@.subrange(0, j as int),
                    ),
                    self.stats.min_velo == min_over(
                        min0,
                        prefix_flat(snap, l as int) + lane@.subrange(0, j as int),
                    ),
                    self.wf(),
                    self.intersection == after,
                    self.total_vehicles == old(self).total_vehicles,
                    self.stats.num_close == if start + newly@.len() <= u64::MAX {
                        start + newly@.len()
                    } else {
                        u64::MAX as int
                    },
                decreases lane@.len() - j,
            {
                let ghost seen = prefix_flat(snap, l as int) + lane@.subrange(0, j as int);
                self.stats.record_velocity(lane[j].velocity);
                assert((prefix_flat(snap, l as int) + lane@.subrange(0, j + 1)).drop_last() =~= seen);
                j = j + 1;
            }
            assert(lane@.subrange(0, lane@.len() as int) =~= lane@);
            l = l + 1;
        }
        assert(prefix_flat(snap, 4) =~= flat(snap)) by {
            assert(prefix_flat(snap, 1) =~= snap[0]);
            assert(prefix_flat(snap, 2) =~= snap[0] + snap[1]);
            assert(prefix_flat(snap, 3) =~= snap[0] + snap[1] + snap[2]);
        }
        let count = self.intersection.total_vehicles();
        self.stats.update_car_count(count);
    }
}

} // verus!

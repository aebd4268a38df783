//! Running statistics: vehicle count, close calls, fastest and slowest speed
//! observed. Purely observational: nothing here feeds back into arbitration.
use vstd::prelude::*;

verus! {

/// The fastest speed once `velocity` is observed too.
pub open spec fn max_with(m: Option<u32>, velocity: u32) -> Option<u32> {
    Some(
        match m {
            Some(a) => if a >= velocity {
                a
            } else {
                velocity
            },
            None => velocity,
        },
    )
}

/// The slowest speed once `velocity` is observed too.
pub open spec fn min_with(m: Option<u32>, velocity: u32) -> Option<u32> {
    Some(
        match m {
            Some(a) => if a <= velocity {
                a
            } else {
                velocity
            },
            None => velocity,
        },
    )
}

#[derive(Debug)]
pub struct StatisticsManager {
    /// Vehicles currently in the lanes.
    pub num_cars: usize,
    /// Close calls counted so far (saturating at the largest `u64`).
    pub num_close: u64,
    /// Fastest speed observed (mm/s), if any.
    pub max_velo: Option<u32>,
    /// Slowest speed observed (mm/s), if any.
    pub min_velo: Option<u32>,
}

impl StatisticsManager {
    pub fn new() -> (r: Self)
        ensures
            r.num_cars == 0,
            r.num_close == 0,
            r.max_velo.is_none(),
            r.min_velo.is_none(),
    {
        StatisticsManager { num_cars: 0, num_close: 0, max_velo: None, min_velo: None }
    }

    pub fn update_car_count(&mut self, count: usize)
        ensures
            final(self).num_cars == count,
            final(self).num_close == old(self).num_close,
            final(self).max_velo == old(self).max_velo,
            final(self).min_velo == old(self).min_velo,
    {
        self.num_cars = count;
    }

    pub fn record_close_call(&mut self)
        ensures
            final(self).num_close == if old(self).num_close < u64::MAX {
                old(self).num_close + 1
            } else {
                u64::MAX as int
            },
            final(self).num_cars == old(self).num_cars,
            final(self).max_velo == old(self).max_velo,
            final(self).min_velo == old(self).min_velo,
    {
        self.num_close = self.num_close.saturating_add(1);
    }

    pub fn record_velocity(&mut self, velocity: u32)
        ensures
            final(self).max_velo == max_with(old(self).max_velo, velocity),
            final(self).min_velo == min_with(old(self).min_velo, velocity),
            final(self).num_cars == old(self).num_cars,
            final(self).num_close == old(self).num_close,
    {
        self.max_velo = match self.max_velo {
            Some(m) => if m >= velocity {
                Some(m)
            } else {
                Some(velocity)
            },
            None => Some(velocity),
        };
        self.min_velo = match self.min_velo {
            Some(m) => if m <= velocity {
                Some(m)
            } else {
                Some(velocity)
            },
            None => Some(velocity),
        };
    }
}

} // verus!

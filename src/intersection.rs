//! The intersection: four lane queues, the per-tick arbitration over a
//! snapshot of them, and close-call tracking.
use vstd::prelude::*;
use crate::arbitration::{
    decide_speed, decided_speed, lane_index, lane_of, lanes_ok, view_lanes,
};
use crate::physics::{Physics, SLOW};
use crate::vehicle::{sq_dist, Direction, Route, Vehicle, BOUNDARY_LIMIT, INTERSECTION_HALF_WIDTH, MAX_TICK_MS};

verus! {

/// Conflict evaluation starts this far (10 m) before the footprint.
pub const ENTRY_MARGIN: i64 = 10_000_000;

/// A pair of vehicle ids, the smaller first.
pub type IdPair = (u32, u32);

/// The intersection and its lane queues.
///
/// `lanes` holds four queues, indexed North, South, East, West by
/// [`lane_index`]. The engine is the only writer of the queues.
#[derive(Debug)]
pub struct Intersection {
    pub lanes: Vec<Vec<Vehicle>>,
    /// Minimum safe distance between vehicles, in micrometers.
    pub safe_distance: u32,
    pub physics: Physics,
    /// Distance from the center (micrometers) where conflict evaluation starts.
    pub intersection_entry_distance: i64,
    /// Pairs already counted for their current close encounter.
    pub recorded_close_calls: Vec<IdPair>,
}

/// The vehicles of all four lanes, North first.
pub open spec fn flat(s: Seq<Seq<Vehicle>>) -> Seq<Vehicle> {
    s[0] + s[1] + s[2] + s[3]
}

pub open spec fn ordered_pair(a: Vehicle, b: Vehicle) -> IdPair {
    if a.id < b.id {
        (a.id, b.id)
    } else {
        (b.id, a.id)
    }
}

/// Vehicles `i` and `j` are two active vehicles closer than `safe`.
pub open spec fn close_at(all: Seq<Vehicle>, safe: int, i: int, j: int) -> bool {
    &&& all[i].active
    &&& all[j].active
    &&& all[i].id != all[j].id
    &&& sq_dist(all[i], all[j]) < safe * safe
}

/// The close pairs found at positions `(a, b)` before `(i, j)` in
/// lexicographic order.
pub open spec fn close_pairs_before(all: Seq<Vehicle>, safe: int, i: int, j: int) -> Set<IdPair> {
    Set::new(
        |p: IdPair|
            exists|a: int, b: int|
                0 <= a < all.len() && 0 <= b < all.len() && (a < i || (a == i && b < j))
                    && #[trigger] close_at(all, safe, a, b) && ordered_pair(all[a], all[b]) == p,
    )
}

/// All unordered pairs of active vehicles currently closer than `safe`.
pub open spec fn close_pairs(all: Seq<Vehicle>, safe: int) -> Set<IdPair> {
    close_pairs_before(all, safe, all.len() as int, 0)
}

/// One tick of the close-call tracker: the pairs recorded afterwards, and
/// the pairs counted as new close calls.
pub open spec fn tracker_step(recorded: Set<IdPair>, close: Set<IdPair>) -> (Set<IdPair>, Set<IdPair>) {
    (close, close.difference(recorded))
}

/// The vehicle after its turn in a tick over snapshot `s`.
pub open spec fn step_vehicle(
    s: Seq<Seq<Vehicle>>,
    l: int,
    i: int,
    safe: int,
    entry: int,
    boundary: int,
    dt: u32,
) -> Vehicle {
    let v = s[l][i];
    if !v.active {
        v
    } else {
        let sp = decided_speed(s, l, i, safe, entry);
        let w = Vehicle { velocity: sp as u32, ..v };
        let x = if sp > 0 {
            w.advanced(dt, boundary)
        } else {
            w
        };
        if x.distance_to_intersection < -boundary || !x.in_world() {
            Vehicle { active: false, ..x }
        } else {
            x
        }
    }
}

/// The active vehicles of a sequence, in order.
pub open spec fn kept(vs: Seq<Vehicle>) -> Seq<Vehicle>
    decreases vs.len(),
{
    if vs.len() == 0 {
        vs
    } else {
        let rest = kept(vs.drop_last());
        if vs.last().active {
            rest.push(vs.last())
        } else {
            rest
        }
    }
}

/// Lane `l` at the end of a tick: every vehicle stepped, inactive ones purged.
pub open spec fn lane_after(
    s: Seq<Seq<Vehicle>>,
    l: int,
    safe: int,
    entry: int,
    boundary: int,
    dt: u32,
) -> Seq<Vehicle> {
    kept(stepped(s, l, s[l].len() as int, safe, entry, boundary, dt))
}

/// The first `n` vehicles of lane `l`, each after its turn in the tick.
pub open spec fn stepped(
    s: Seq<Seq<Vehicle>>,
    l: int,
    n: int,
    safe: int,
    entry: int,
    boundary: int,
    dt: u32,
) -> Seq<Vehicle> {
    Seq::new(n as nat, |i: int| step_vehicle(s, l, i, safe, entry, boundary, dt))
}

proof fn lemma_kept_active(vs: Seq<Vehicle>)
    ensures
        forall|j: int| 0 <= j < kept(vs).len() ==> (#[trigger] kept(vs)[j]).active,
        forall|j: int|
            0 <= j < kept(vs).len() ==> exists|m: int| 0 <= m < vs.len() && vs[m] == #[trigger] kept(vs)[j],
    decreases vs.len(),
{
    if vs.len() > 0 {
        lemma_kept_active(vs.drop_last());
        let rest = kept(vs.drop_last());
        assert forall|j: int| 0 <= j < kept(vs).len() implies exists|m: int|
            0 <= m < vs.len() && vs[m] == #[trigger] kept(vs)[j] by {
            if j < rest.len() {
                let m = choose|m: int| 0 <= m < vs.drop_last().len() && vs.drop_last()[m] == rest[j];
                assert(vs[m] == kept(vs)[j]);
            } else {
                assert(vs[vs.len() - 1] == kept(vs)[j]);
            }
        }
    }
}

fn contains_pair(v: &Vec<IdPair>, p: IdPair) -> (r: bool)
    ensures
        r == v@.contains(p),
{
    let mut j: usize = 0;
    while j < v.len()
        invariant
            j <= v@.len(),
            forall|m: int| 0 <= m < j ==> v@[m] != p,
        decreases v@.len() - j,
    {
        if v[j].0 == p.0 && v[j].1 == p.1 {
            return true;
        }
        j = j + 1;
    }
    false
}

proof fn lemma_pairs_step(all: Seq<Vehicle>, safe: int, i: int, j: int)
    requires
        0 <= i < all.len(),
        0 <= j < all.len(),
    ensures
        forall|p: IdPair|
            close_pairs_before(all, safe, i, j + 1).contains(p) <==> (close_pairs_before(
                all,
                safe,
                i,
                j,
            ).contains(p) || (close_at(all, safe, i, j) && ordered_pair(all[i], all[j]) == p)),
{
    assert forall|p: IdPair|
        close_pairs_before(all, safe, i, j + 1).contains(p) <==> (close_pairs_before(
            all,
            safe,
            i,
            j,
        ).contains(p) || (close_at(all, safe, i, j) && ordered_pair(all[i], all[j]) == p)) by {
        if close_pairs_before(all, safe, i, j + 1).contains(p) {
            let (a, b) = choose|a: int, b: int|
                0 <= a < all.len() && 0 <= b < all.len() && (a < i || (a == i && b < j + 1))
                    && #[trigger] close_at(all, safe, a, b) && ordered_pair(all[a], all[b]) == p;
            if !(a == i && b == j) {
                assert(close_at(all, safe, a, b));
                assert(close_pairs_before(all, safe, i, j).contains(p));
            }
        }
        if close_pairs_before(all, safe, i, j).contains(p) {
            let (a, b) = choose|a: int, b: int|
                0 <= a < all.len() && 0 <= b < all.len() && (a < i || (a == i && b < j))
                    && #[trigger] close_at(all, safe, a, b) && ordered_pair(all[a], all[b]) == p;
            assert(close_at(all, safe, a, b));
            assert(close_pairs_before(all, safe, i, j + 1).contains(p));
        }
        if close_at(all, safe, i, j) && ordered_pair(all[i], all[j]) == p {
            assert(close_pairs_before(all, safe, i, j + 1).contains(p));
        }
    }
}

proof fn lemma_pairs_row(all: Seq<Vehicle>, safe: int, i: int)
    requires
        0 <= i < all.len(),
    ensures
        forall|p: IdPair|
            close_pairs_before(all, safe, i, all.len() as int).contains(p)
                <==> close_pairs_before(all, safe, i + 1, 0).contains(p),
{
    let n = all.len() as int;
    assert forall|p: IdPair|
        close_pairs_before(all, safe, i, n).contains(p) <==> close_pairs_before(
            all,
            safe,
            i + 1,
            0,
        ).contains(p) by {
        if close_pairs_before(all, safe, i, n).contains(p) {
            let (a, b) = choose|a: int, b: int|
                0 <= a < all.len() && 0 <= b < all.len() && (a < i || (a == i && b < n))
                    && #[trigger] close_at(all, safe, a, b) && ordered_pair(all[a], all[b]) == p;
            assert(close_at(all, safe, a, b));
        }
        if close_pairs_before(all, safe, i + 1, 0).contains(p) {
            let (a, b) = choose|a: int, b: int|
                0 <= a < all.len() && 0 <= b < all.len() && (a < i + 1 || (a == i + 1 && b < 0))
                    && #[trigger] close_at(all, safe, a, b) && ordered_pair(all[a], all[b]) == p;
            assert(close_at(all, safe, a, b));
        }
    }
}

pub open spec fn prefix_flat(s: Seq<Seq<Vehicle>>, k: int) -> Seq<Vehicle>
    decreases k,
{
    if k <= 0 {
        Seq::empty()
    } else {
        prefix_flat(s, k - 1) + s[k - 1]
    }
}

fn all_vehicles(lanes: &Vec<Vec<Vehicle>>) -> (r: Vec<Vehicle>)
    requires
        lanes_ok(view_lanes(*lanes)),
    ensures
        r@ == flat(view_lanes(*lanes)),
        forall|m: int| 0 <= m < r@.len() ==> (#[trigger] r@[m]).in_world(),
{
    let ghost s = view_lanes(*lanes);
    let mut all: Vec<Vehicle> = Vec::new();
    let mut k: usize = 0;
    while k < 4
        invariant
            k <= 4,
            lanes@.len() == 4,
            s == view_lanes(*lanes),
            lanes_ok(s),
            all@ == prefix_flat(s, k as int),
            forall|m: int| 0 <= m < all@.len() ==> (#[trigger] all@[m]).in_world(),
        decreases 4 - k,
    {
        let lane = &lanes[k];
        assert(lane@ == s[k as int]);
        let mut j: usize = 0;
        while j < lane.len()
            invariant
                j <= lane@.len(),
                k < 4,
                lane@ == s[k as int],
                lanes_ok(s),
                all@ == prefix_flat(s, k as int) + lane@.subrange(0, j as int),
                forall|m: int| 0 <= m < all@.len() ==> (#[trigger] all@[m]).in_world(),
            decreases lane@.len() - j,
        {
            assert(s[k as int][j as int].in_world());
            all.push(lane[j]);
            assert(all@ =~= prefix_flat(s, k as int) + lane@.subrange(0, j as int + 1));
            j = j + 1;
        }
        assert(lane@.subrange(0, lane@.len() as int) =~= lane@);
        k = k + 1;
    }
    assert(prefix_flat(s, 4) =~= flat(s)) by {
        assert(prefix_flat(s, 1) =~= s[0]);
        assert(prefix_flat(s, 2) =~= s[0] + s[1]);
        assert(prefix_flat(s, 3) =~= s[0] + s[1] + s[2]);
    }
    all
}

/// The close pairs among `all`, each once.
fn close_pairs_of(all: &Vec<Vehicle>, safe: u32) -> (r: Vec<IdPair>)
    requires
        forall|m: int| 0 <= m < all@.len() ==> (#[trigger] all@[m]).in_world(),
    ensures
        r@.no_duplicates(),
        forall|p: IdPair| r@.contains(p) <==> close_pairs(all@, safe as int).contains(p),
{
    proof {
        assert(0 <= safe as int * safe as int <= u32::MAX as int * u32::MAX as int)
            by (nonlinear_arith)
            requires
                safe <= u32::MAX,
        ;
    }
    let s2: u128 = (safe as u128) * (safe as u128);
    let n = all.len();
    let mut close: Vec<IdPair> = Vec::new();
    let mut i: usize = 0;
    while i < n
        invariant
            i <= n,
            n == all@.len(),
            s2 == safe as int * safe as int,
            forall|m: int| 0 <= m < all@.len() ==> (#[trigger] all@[m]).in_world(),
            close@.no_duplicates(),
            forall|p: IdPair|
                close@.contains(p) <==> close_pairs_before(all@, safe as int, i as int, 0).contains(
                    p,
                ),
        decreases n - i,
    {
        let mut j: usize = 0;
        while j < n
            invariant
                i < n,
                j <= n,
                n == all@.len(),
                s2 == safe as int * safe as int,
                forall|m: int| 0 <= m < all@.len() ==> (#[trigger] all@[m]).in_world(),
                close@.no_duplicates(),
                forall|p: IdPair|
                    close@.contains(p) <==> close_pairs_before(
                        all@,
                        safe as int,
                        i as int,
                        j as int,
                    ).contains(p),
            decreases n - j,
        {
            proof {
                lemma_pairs_step(all@, safe as int, i as int, j as int);
            }
            let ghost before_j = close@;
            assert(forall|x: IdPair|
                before_j.contains(x) <==> close_pairs_before(
                    all@,
                    safe as int,
                    i as int,
                    j as int,
                ).contains(x));
            let a = &all[i];
            let b = &all[j];
            if a.active && b.active && a.id != b.id {
                let d2 = crate::vehicle::sq_distance(a, b);
                if d2 < s2 {
                    let p: IdPair = if a.id < b.id {
                        (a.id, b.id)
                    } else {
                        (b.id, a.id)
                    };
                    assert(p == ordered_pair(all@[i as int], all@[j as int]));
                    if !contains_pair(&close, p) {
                        let ghost before = close@;
                        close.push(p);
                        proof {
                            assert forall|x: IdPair| close@.contains(x) <==> (before.contains(x)
                                || x == p) by {
                                if close@.contains(x) {
                                    let m = choose|m: int| 0 <= m < close@.len() && close@[m] == x;
                                    if m < before.len() {
                                        assert(before[m] == x);
                                    }
                                }
                                if before.contains(x) {
                                    let m = choose|m: int| 0 <= m < before.len() && before[m] == x;
                                    assert(close@[m] == x);
                                }
                                if x == p {
                                    assert(close@[before.len() as int] == x);
                                }
                            }
                        }
                    }
                }
            }
            assert forall|x: IdPair|
                close@.contains(x) <==> close_pairs_before(
                    all@,
                    safe as int,
                    i as int,
                    j as int + 1,
                ).contains(x) by {
                assert(before_j.contains(x) == close_pairs_before(
                    all@,
                    safe as int,
                    i as int,
                    j as int,
                ).contains(x));
                if close_at(all@, safe as int, i as int, j as int) {
                    let p = ordered_pair(all@[i as int], all@[j as int]);
                    assert(close@.contains(p));
                    assert(close@.contains(x) == (before_j.contains(x) || x == p));
                } else {
                    assert(close@ == before_j);
                }
            }
            j = j + 1;
        }
        proof {
            lemma_pairs_row(all@, safe as int, i as int);
        }
        i = i + 1;
    }
    close
}

/// The vehicle at `(l, i)` after its decision and move of this tick.
fn tick_vehicle(
    lanes: &Vec<Vec<Vehicle>>,
    l: usize,
    i: usize,
    safe: u32,
    entry: i64,
    boundary: u32,
    dt: u32,
) -> (r: Vehicle)
    requires
        lanes_ok(view_lanes(*lanes)),
        l < 4,
        i < lanes@[l as int]@.len(),
        dt <= MAX_TICK_MS,
    ensures
        r == step_vehicle(
            view_lanes(*lanes),
            l as int,
            i as int,
            safe as int,
            entry as int,
            boundary as int,
            dt,
        ),
{
    let ghost s = view_lanes(*lanes);
    assert(lanes@[l as int]@ == s[l as int]);
    let mut v = lanes[l][i];
    assert(v.in_world());
    if !v.active {
        return v;
    }
    let sp = decide_speed(lanes, l, i, safe, entry);
    v.set_velocity(sp);
    if sp > 0 {
        v.advance(dt, boundary);
    }
    if v.distance_to_intersection < -(boundary as i64) || !v.within_world() {
        v.active = false;
    }
    v
}

impl Intersection {
    /// The lanes as a snapshot.
    pub open spec fn snapshot(self) -> Seq<Seq<Vehicle>> {
        view_lanes(self.lanes)
    }

    /// Number of vehicles in the four lanes.
    pub open spec fn count_all(self) -> int {
        self.lanes@[0]@.len() as int + self.lanes@[1]@.len() as int + self.lanes@[2]@.len() as int
            + self.lanes@[3]@.len() as int
    }

    /// Four lanes, every vehicle within the world.
    pub open spec fn wf(self) -> bool {
        lanes_ok(self.snapshot())
    }

    /// An intersection with four empty lanes.
    pub fn new(safe_distance: u32) -> (r: Self)
        ensures
            r.wf(),
            forall|l: int| 0 <= l < 4 ==> (#[trigger] r.lanes@[l])@.len() == 0,
            r.safe_distance == safe_distance,
            r.physics.safe_distance == safe_distance,
            r.physics.boundary_limit == BOUNDARY_LIMIT,
            r.intersection_entry_distance == INTERSECTION_HALF_WIDTH + ENTRY_MARGIN,
            r.recorded_close_calls@.len() == 0,
    {
        let mut lanes: Vec<Vec<Vehicle>> = Vec::new();
        lanes.push(Vec::new());
        lanes.push(Vec::new());
        lanes.push(Vec::new());
        lanes.push(Vec::new());
        let r = Intersection {
            lanes,
            safe_distance,
            physics: Physics::new(safe_distance, BOUNDARY_LIMIT),
            intersection_entry_distance: INTERSECTION_HALF_WIDTH + ENTRY_MARGIN,
            recorded_close_calls: Vec::new(),
        };
        assert(r.wf());
        r
    }

    /// Appends a vehicle to the lane of `direction`. Every direction has a
    /// lane, so this always succeeds.
    pub fn add_vehicle(&mut self, direction: Direction, vehicle: Vehicle) -> (r: bool)
        requires
            old(self).wf(),
            vehicle.in_world(),
        ensures
            r,
            final(self).wf(),
            final(self).lanes@.len() == 4,
            forall|l: int|
                0 <= l < 4 ==> (#[trigger] final(self).lanes@[l])@ == if l == lane_index(direction) {
                    old(self).lanes@[l]@.push(vehicle)
                } else {
                    old(self).lanes@[l]@
                },
            final(self).safe_distance == old(self).safe_distance,
            final(self).physics == old(self).physics,
            final(self).intersection_entry_distance == old(self).intersection_entry_distance,
            final(self).recorded_close_calls == old(self).recorded_close_calls,
    {
        let idx = lane_of(direction);
        let ghost before = self.lanes@;
        let mut lane = self.lanes.remove(idx);
        lane.push(vehicle);
        self.lanes.insert(idx, lane);
        assert forall|l: int| 0 <= l < 4 implies (#[trigger] self.lanes@[l])@ == if l == lane_index(
            direction,
        ) {
            before[l]@.push(vehicle)
        } else {
            before[l]@
        } by {
            if l < idx {
                assert(self.lanes@[l] == before[l]);
            } else if l > idx {
                assert(self.lanes@[l] == before[l]);
            }
        }
        assert(lanes_ok(self.snapshot())) by {
            assert forall|l: int, j: int| 0 <= l < 4 && 0 <= j < self.snapshot()[l].len() implies (
            #[trigger] self.snapshot()[l][j]).in_world() by {
                assert(self.snapshot()[l] == self.lanes@[l]@);
                assert(old(self).snapshot()[l] == before[l]@);
                if l == idx && j == before[l]@.len() {
                } else {
                    assert(old(self).snapshot()[l][j].in_world());
                }
            }
        }
        true
    }

    /// Counts the close calls of this tick, over the lanes as they stand.
    ///
    /// Every unordered pair of active vehicles closer than the safe distance
    /// is close. A close pair that was not recorded is a new close call; the
    /// recorded pairs become exactly the close pairs, so a pair that moves
    /// apart (or whose vehicle is gone) can be counted again on a later
    /// encounter. Returns the new close calls, each once.
    pub fn detect_close_calls(&mut self) -> (newly: Vec<IdPair>)
        requires
            old(self).wf(),
        ensures
            final(self).lanes == old(self).lanes,
            final(self).safe_distance == old(self).safe_distance,
            final(self).physics == old(self).physics,
            final(self).intersection_entry_distance == old(self).intersection_entry_distance,
            final(self).recorded_close_calls@.no_duplicates(),
            forall|p: IdPair|
                final(self).recorded_close_calls@.contains(p) <==> close_pairs(
                    flat(old(self).snapshot()),
                    old(self).safe_distance as int,
                ).contains(p),
            newly@.no_duplicates(),
            forall|p: IdPair|
                newly@.contains(p) <==> (close_pairs(
                    flat(old(self).snapshot()),
                    old(self).safe_distance as int,
                ).contains(p) && !old(self).recorded_close_calls@.contains(p)),
    {
        let all = all_vehicles(&self.lanes);
        let close = close_pairs_of(&all, self.safe_distance);
        let mut newly: Vec<IdPair> = Vec::new();
        let mut k: usize = 0;
        while k < close.len()
            invariant
                k <= close@.len(),
                close@.no_duplicates(),
                newly@.no_duplicates(),
                forall|p: IdPair|
                    newly@.contains(p) <==> (exists|m: int|
                        0 <= m < k && close@[m] == p && !self.recorded_close_calls@.contains(p)),
            decreases close@.len() - k,
        {
            let p = close[k];
            if !contains_pair(&self.recorded_close_calls, p) {
                let ghost before = newly@;
                assert(!before.contains(p)) by {
                    if before.contains(p) {
                        let m = choose|m: int|
                            0 <= m < k && close@[m] == p && !self.recorded_close_calls@.contains(p);
                        assert(close@[m] == close@[k as int]);
                    }
                }
                newly.push(p);
                assert forall|x: IdPair|
                    newly@.contains(x) <==> (exists|m: int|
                        0 <= m < k + 1 && close@[m] == x && !self.recorded_close_calls@.contains(
                            x,
                        )) by {
                    if newly@.contains(x) {
                        let m = choose|m: int| 0 <= m < newly@.len() && newly@[m] == x;
                        if m < before.len() {
                            assert(before[m] == x);
                            assert(before.contains(x));
                        } else {
                            assert(close@[k as int] == x);
                        }
                    }
                    if exists|m: int|
                        0 <= m < k + 1 && close@[m] == x && !self.recorded_close_calls@.contains(
                            x,
                        ) {
                        let m = choose|m: int|
                            0 <= m < k + 1 && close@[m] == x
                                && !self.recorded_close_calls@.contains(x);
                        if m < k {
                            assert(before.contains(x));
                            let m2 = choose|m2: int| 0 <= m2 < before.len() && before[m2] == x;
                            assert(newly@[m2] == x);
                        } else {
                            assert(newly@[before.len() as int] == x);
                        }
                    }
                }
            } else {
                assert forall|x: IdPair|
                    newly@.contains(x) <==> (exists|m: int|
                        0 <= m < k + 1 && close@[m] == x && !self.recorded_close_calls@.contains(
                            x,
                        )) by {
                    if exists|m: int|
                        0 <= m < k + 1 && close@[m] == x && !self.recorded_close_calls@.contains(
                            x,
                        ) {
                        let m = choose|m: int|
                            0 <= m < k + 1 && close@[m] == x
                                && !self.recorded_close_calls@.contains(x);
                        if m == k {
                            assert(false);
                        }
                    }
                }
            }
            k = k + 1;
        }
        assert forall|p: IdPair|
            newly@.contains(p) <==> (close@.contains(p) && !self.recorded_close_calls@.contains(p)) by {
            if close@.contains(p) && !self.recorded_close_calls@.contains(p) {
                let m = choose|m: int| 0 <= m < close@.len() && close@[m] == p;
                assert(0 <= m < k && close@[m] == p && !self.recorded_close_calls@.contains(p));
            }
        }
        self.recorded_close_calls = close;
        newly
    }

    /// Runs one tick of `delta_time` ms.
    ///
    /// Close calls are counted first. Then every active vehicle gets the speed
    /// decided from the lanes as they stood at the start of the tick (no
    /// decision reads another vehicle's update of the same tick), moves if
    /// that speed is not zero, and is deactivated once past the boundary
    /// limit (or out of the representable world). Inactive vehicles are then
    /// purged. Returns the new close calls of the tick.
    pub fn update(&mut self, delta_time: u32) -> (newly: Vec<IdPair>)
        requires
            old(self).wf(),
            delta_time <= MAX_TICK_MS,
        ensures
            final(self).wf(),
            forall|l: int|
                0 <= l < 4 ==> (#[trigger] final(self).lanes@[l])@ == lane_after(
                    old(self).snapshot(),
                    l,
                    old(self).safe_distance as int,
                    old(self).intersection_entry_distance as int,
                    old(self).physics.boundary_limit as int,
                    delta_time,
                ),
            final(self).safe_distance == old(self).safe_distance,
            final(self).physics == old(self).physics,
            final(self).intersection_entry_distance == old(self).intersection_entry_distance,
            final(self).recorded_close_calls@.to_set() == tracker_step(
                old(self).recorded_close_calls@.to_set(),
                close_pairs(flat(old(self).snapshot()), old(self).safe_distance as int),
            ).0,
            newly@.to_set() == tracker_step(
                old(self).recorded_close_calls@.to_set(),
                close_pairs(flat(old(self).snapshot()), old(self).safe_distance as int),
            ).1,
            newly@.no_duplicates(),
            forall|l: int, j: int|
                0 <= l < 4 && 0 <= j < final(self).lanes@[l]@.len() ==> {
                    let v = #[trigger] final(self).lanes@[l]@[j];
                    &&& v.active
                    &&& v.distance_to_intersection >= -(old(self).physics.boundary_limit as int)
                    &&& v.route == Route::Right ==> v.velocity >= SLOW
                },
    {
        let ghost s = self.snapshot();
        let ghost old_recorded = self.recorded_close_calls@;
        let newly = self.detect_close_calls();
        let ghost close = close_pairs(flat(s), self.safe_distance as int);
        assert(self.recorded_close_calls@.to_set() =~= tracker_step(old_recorded.to_set(), close).0);
        assert(newly@.to_set() =~= tracker_step(old_recorded.to_set(), close).1);
        let safe = self.safe_distance;
        let entry = self.intersection_entry_distance;
        let boundary = self.physics.boundary_limit;
        let mut new_lanes: Vec<Vec<Vehicle>> = Vec::new();
        let mut l: usize = 0;
        while l < 4
            invariant
                l <= 4,
                s == self.snapshot(),
                lanes_ok(s),
                self.lanes@.len() == 4,
                delta_time <= MAX_TICK_MS,
                new_lanes@.len() == l,
                forall|m: int|
                    0 <= m < l ==> (#[trigger] new_lanes@[m])@ == lane_after(
                        s,
                        m,
                        safe as int,
                        entry as int,
                        boundary as int,
                        delta_time,
                    ),
            decreases 4 - l,
        {
            let lane = &self.lanes[l];
            assert(lane@ == s[l as int]);
            let mut out: Vec<Vehicle> = Vec::new();
            let mut i: usize = 0;
            while i < lane.len()
                invariant
                    i <= lane@.len(),
                    l < 4,
                    lane@ == s[l as int],
                    s == self.snapshot(),
                    lanes_ok(s),
                    delta_time <= MAX_TICK_MS,
                    out@ == kept(
                        stepped(
                            s,
                            l as int,
                            i as int,
                            safe as int,
                            entry as int,
                            boundary as int,
                            delta_time,
                        ),
                    ),
                decreases lane@.len() - i,
            {
                let v = tick_vehicle(&self.lanes, l, i, safe, entry, boundary, delta_time);
                let ghost prev = stepped(
                    s,
                    l as int,
                    i as int,
                    safe as int,
                    entry as int,
                    boundary as int,
                    delta_time,
                );
                let ghost next = stepped(
                    s,
                    l as int,
                    i + 1,
                    safe as int,
                    entry as int,
                    boundary as int,
                    delta_time,
                );
                assert(next.drop_last() =~= prev);
                assert(next.last() == v);
                if v.active {
                    out.push(v);
                }
                i = i + 1;
            }
            new_lanes.push(out);
            l = l + 1;
        }
        self.lanes = new_lanes;
        assert(lanes_ok(self.snapshot())) by {
            assert forall|l: int, j: int|
                0 <= l < 4 && 0 <= j < self.snapshot()[l].len() implies (
            #[trigger] self.snapshot()[l][j]).in_world() by {
                let vs = stepped(
                    s,
                    l,
                    s[l].len() as int,
                    safe as int,
                    entry as int,
                    boundary as int,
                    delta_time,
                );
                assert(self.snapshot()[l] == kept(vs));
                lemma_kept_active(vs);
                let m = choose|m: int| 0 <= m < vs.len() && vs[m] == #[trigger] kept(vs)[j];
                assert(kept(vs)[j].active);
                assert(s[l][m].in_world());
            }
        }
        assert forall|l: int, j: int|
            0 <= l < 4 && 0 <= j < self.lanes@[l]@.len() implies {
                let v = #[trigger] self.lanes@[l]@[j];
                &&& v.active
                &&& v.distance_to_intersection >= -(boundary as int)
                &&& v.route == Route::Right ==> v.velocity >= SLOW
            } by {
            let vs = stepped(
                s,
                l,
                s[l].len() as int,
                safe as int,
                entry as int,
                boundary as int,
                delta_time,
            );
            assert(self.snapshot()[l] == kept(vs));
            assert(self.lanes@[l]@ == self.snapshot()[l]);
            lemma_kept_active(vs);
            let m = choose|m: int| 0 <= m < vs.len() && vs[m] == #[trigger] kept(vs)[j];
            assert(s[l][m].active);
            lemma_monotonic_approach(s, l, m, safe as int, entry as int, boundary as int, delta_time);
            if s[l][m].route == Route::Right {
                crate::arbitration::lemma_right_turn_floor(s, l, m, safe as int, entry as int);
            }
        }
        newly
    }

    /// Total number of vehicles in the four lanes (saturating at the largest
    /// `usize`).
    pub fn total_vehicles(&self) -> (r: usize)
        requires
            self.wf(),
        ensures
            r == if self.count_all() <= usize::MAX {
                self.count_all()
            } else {
                usize::MAX as int
            },
    {
        let a = self.lanes[0].len().saturating_add(self.lanes[1].len());
        let b = a.saturating_add(self.lanes[2].len());
        b.saturating_add(self.lanes[3].len())
    }

    /// Number of vehicles in the lane of `direction`.
    pub fn vehicles_in_lane(&self, direction: Direction) -> (r: usize)
        requires
            self.wf(),
        ensures
            r == self.lanes@[lane_index(direction)]@.len(),
    {
        self.lanes[lane_of(direction)].len()
    }

    /// The lane of `direction`.
    pub fn lane(&self, direction: Direction) -> (r: &Vec<Vehicle>)
        requires
            self.wf(),
        ensures
            r@ == self.lanes@[lane_index(direction)]@,
    {
        &self.lanes[lane_of(direction)]
    }
}

/// Close-call counting: a pair that comes within the safe distance, moves
/// apart and comes close again is counted on both encounters, while a pair
/// that stays close over consecutive ticks is counted once.
pub proof fn lemma_close_call_encounters(
    recorded: Set<IdPair>,
    close1: Set<IdPair>,
    close2: Set<IdPair>,
    close3: Set<IdPair>,
    p: IdPair,
)
    requires
        !recorded.contains(p),
        close1.contains(p),
    ensures
        tracker_step(recorded, close1).1.contains(p),
        !close2.contains(p) && close3.contains(p) ==> tracker_step(
            tracker_step(tracker_step(recorded, close1).0, close2).0,
            close3,
        ).1.contains(p),
        close2.contains(p) ==> !tracker_step(tracker_step(recorded, close1).0, close2).1.contains(p),
{
}

/// Monotonic approach: a vehicle that is assigned a nonzero speed in a tick
/// ends the tick closer to the center by exactly speed times the time step.
pub proof fn lemma_monotonic_approach(
    s: Seq<Seq<Vehicle>>,
    l: int,
    i: int,
    safe: int,
    entry: int,
    boundary: int,
    dt: u32,
)
    requires
        lanes_ok(s),
        0 <= l < 4,
        0 <= i < s[l].len(),
        s[l][i].active,
        dt <= MAX_TICK_MS,
    ensures
        step_vehicle(s, l, i, safe, entry, boundary, dt).velocity == decided_speed(
            s,
            l,
            i,
            safe,
            entry,
        ),
        decided_speed(s, l, i, safe, entry) > 0 ==> step_vehicle(
            s,
            l,
            i,
            safe,
            entry,
            boundary,
            dt,
        ).distance_to_intersection == s[l][i].distance_to_intersection - decided_speed(
            s,
            l,
            i,
            safe,
            entry,
        ) * dt,
        decided_speed(s, l, i, safe, entry) > 0 && dt > 0 ==> step_vehicle(
            s,
            l,
            i,
            safe,
            entry,
            boundary,
            dt,
        ).distance_to_intersection < s[l][i].distance_to_intersection,
{
    let sp = decided_speed(s, l, i, safe, entry);
    crate::arbitration::lemma_speed_range(s, l, i, safe, entry);
    assert(s[l][i].in_world());
    assert(0 <= sp * dt <= 15_000 * MAX_TICK_MS as int) by (nonlinear_arith)
        requires
            0 <= sp <= 15_000,
            0 <= dt <= MAX_TICK_MS,
    ;
    assert(sp > 0 && dt > 0 ==> sp * dt > 0) by (nonlinear_arith);
}

} // verus!

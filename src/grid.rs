//! The world: the grid's points, the vehicles on it and its traffic lights.
use vstd::prelude::*;

use crate::light::{is_new_light, light_after, LightState, TrafficLight};
use crate::point::Point;
use crate::scheduler::{completes, lemma_merge_keeps_order, lemma_merged_len, merge_completed, merged};
use crate::vehicle::{arrived, symbol_of, vehicle_after, Vehicle, ROW_SPACING};

verus! {

/// The items of `s` whose flag in `keep` is set, in their order.
pub open spec fn kept<T>(s: Seq<T>, keep: Seq<bool>) -> Seq<T>
    decreases s.len(),
{
    if s.len() == 0 {
        seq![]
    } else {
        let n = s.len() - 1;
        let rest = kept(s.take(n), keep);
        if keep[n] {
            rest.push(s[n])
        } else {
            rest
        }
    }
}

/// For each vehicle of `vs`, whether it is still on its way.
pub open spec fn en_route_flags(vs: Seq<Vehicle>) -> Seq<bool> {
    vs.map_values(|v: Vehicle| !arrived(v))
}

/// The vehicles of `vs` after one tick: every vehicle takes one step, and those
/// that stood at their destination when the tick began are removed. A vehicle
/// that reaches its destination during the tick stays for one more.
pub open spec fn vehicles_after_tick(vs: Seq<Vehicle>) -> Seq<Vehicle> {
    kept(vs.map_values(|v: Vehicle| vehicle_after(v)), en_route_flags(vs))
}

/// Keeps the items of `items` whose flag in `keep` is set.
fn keep_marked<T: Copy>(items: &Vec<T>, keep: &Vec<bool>) -> (r: Vec<T>)
    requires
        keep@.len() == items@.len(),
    ensures
        r@ == kept(items@, keep@),
{
    let mut r: Vec<T> = Vec::new();
    let mut i: usize = 0;
    while i < items.len()
        invariant
            i <= items@.len(),
            keep@.len() == items@.len(),
            r@ == kept(items@.take(i as int), keep@),
        decreases items.len() - i,
    {
        assert(items@.take(i + 1).take(i as int) == items@.take(i as int));
        if keep[i] {
            r.push(items[i]);
        }
        i = i + 1;
    }
    assert(items@.take(items@.len() as int) == items@);
    r
}

/// With every flag set, nothing is dropped.
proof fn lemma_kept_all<T>(s: Seq<T>, keep: Seq<bool>)
    requires
        forall|i: int| 0 <= i < s.len() ==> keep[i],
    ensures
        kept(s, keep) == s,
    decreases s.len(),
{
    if s.len() > 0 {
        let n = s.len() - 1;
        lemma_kept_all(s.take(n), keep);
        assert(s.take(n).push(s[n]) == s);
    }
}

/// With every flag set but the one at `k`, exactly the item at `k` is dropped.
proof fn lemma_kept_all_but<T>(s: Seq<T>, keep: Seq<bool>, k: int)
    requires
        0 <= k < s.len(),
        !keep[k],
        forall|i: int| 0 <= i < s.len() && i != k ==> keep[i],
    ensures
        kept(s, keep) == s.remove(k),
    decreases s.len(),
{
    let n = s.len() - 1;
    if n == k {
        lemma_kept_all(s.take(n), keep);
        assert(s.take(n) == s.remove(k));
    } else {
        lemma_kept_all_but(s.take(n), keep, k);
        assert(s.take(n).remove(k).push(s[n]) == s.remove(k));
    }
}

/// When exactly one vehicle stands at its destination, a tick removes that
/// vehicle and no other: the others all take their step and keep their order.
pub proof fn lemma_tick_prunes_only_arrived(vs: Seq<Vehicle>, k: int)
    requires
        0 <= k < vs.len(),
        arrived(vs[k]),
        forall|i: int| 0 <= i < vs.len() && i != k ==> !arrived(vs[i]),
    ensures
        vehicles_after_tick(vs) == vs.remove(k).map_values(|v: Vehicle| vehicle_after(v)),
        vehicles_after_tick(vs).len() == vs.len() - 1,
{
    let stepped = vs.map_values(|v: Vehicle| vehicle_after(v));
    lemma_kept_all_but(stepped, en_route_flags(vs), k);
    assert(stepped.remove(k) == vs.remove(k).map_values(|v: Vehicle| vehicle_after(v)));
}

/// The point in row `i` and column `j` of a grid of `height` rows and `width`
/// columns. Rows and columns lie `ROW_SPACING` apart; a point is an
/// intersection when its column or its row lies strictly inside the grid.
pub open spec fn grid_point(height: int, width: int, i: int, j: int) -> Point {
    Point {
        x: (j * ROW_SPACING) as i32,
        y: (i * ROW_SPACING) as i32,
        is_intersection: (0 < j && j < width - 1) || (0 < i && i < height - 1),
    }
}

/// The first `n` points of row `i`, left to right.
pub open spec fn row_prefix(height: int, width: int, i: int, n: int) -> Seq<Point> {
    Seq::new(if n > 0 { n as nat } else { 0 }, |j: int| grid_point(height, width, i, j))
}

/// The points of the first `n` rows, row by row.
pub open spec fn grid_rows(height: int, width: int, n: int) -> Seq<Point>
    decreases n,
{
    if n <= 0 {
        seq![]
    } else {
        grid_rows(height, width, n - 1) + row_prefix(height, width, n - 1, width)
    }
}

/// The number of cells of a grid of `height` rows and `width` columns.
pub open spec fn cell_count(height: int, width: int) -> int {
    if height > 0 && width > 0 {
        height * width
    } else {
        0
    }
}

/// The first `n` rows hold `n` times as many points as a row does.
proof fn lemma_grid_rows_len(height: int, width: int, n: int)
    requires
        0 <= n,
    ensures
        grid_rows(height, width, n).len() == cell_count(n, width),
    decreases n,
{
    if n > 0 {
        lemma_grid_rows_len(height, width, n - 1);
        if width > 0 {
            assert((n - 1) * width + width == n * width) by (nonlinear_arith);
        }
    }
}

/// The positions of the intersections among `ps`, in order.
pub open spec fn intersections(ps: Seq<Point>) -> Seq<(i32, i32)>
    decreases ps.len(),
{
    if ps.len() == 0 {
        seq![]
    } else {
        let rest = intersections(ps.drop_last());
        let p = ps.last();
        if p.is_intersection {
            rest.push((p.x, p.y))
        } else {
            rest
        }
    }
}

pub struct Grid {
    pub points: Vec<Point>,
    pub vehicles: Vec<Vehicle>,
    pub traffic_lights: Vec<TrafficLight>,
}

impl Grid {
    /// An empty grid.
    pub fn new() -> (r: Grid)
        ensures
            r.points@.len() == 0,
            r.vehicles@.len() == 0,
            r.traffic_lights@.len() == 0,
    {
        Grid { points: Vec::new(), vehicles: Vec::new(), traffic_lights: Vec::new() }
    }

    /// Adds the points of a grid of `height` rows and `width` columns, row by
    /// row, and a traffic light in a random phase at each intersection.
    pub fn generate_grid(self, height: i32, width: i32) -> (r: Grid)
        requires
            height as int * ROW_SPACING <= i32::MAX,
            width as int * ROW_SPACING <= i32::MAX,
        ensures
            r.points@ == self.points@ + grid_rows(height as int, width as int, height as int),
            r.points@.len() == self.points@.len() + cell_count(height as int, width as int),
            r.vehicles@ == self.vehicles@,
            r.traffic_lights@.take(self.traffic_lights@.len() as int) == self.traffic_lights@,
            r.traffic_lights@.skip(self.traffic_lights@.len() as int).map_values(
                |l: TrafficLight| l.position,
            ) == intersections(grid_rows(height as int, width as int, height as int)),
            forall|k: int|
                self.traffic_lights@.len() <= k < r.traffic_lights@.len() ==> is_new_light(
                    #[trigger] r.traffic_lights@[k],
                    r.traffic_lights@[k].light_state,
                    r.traffic_lights@[k].position,
                ),
    {
        let mut grid = self;
        let ghost points0 = grid.points@;
        let ghost lights0 = grid.traffic_lights@;
        let mut i: i32 = 0;
        while i < height
            invariant
                0 <= i,
                height > 0 ==> i <= height,
                height <= 0 ==> i == 0,
                height as int * ROW_SPACING <= i32::MAX,
                width as int * ROW_SPACING <= i32::MAX,
                grid.points@ == points0 + grid_rows(height as int, width as int, i as int),
                grid.vehicles@ == self.vehicles@,
                grid.traffic_lights@.take(lights0.len() as int) == lights0,
                lights0.len() <= grid.traffic_lights@.len(),
                grid.traffic_lights@.skip(lights0.len() as int).map_values(|l: TrafficLight| l.position)
                    == intersections(grid_rows(height as int, width as int, i as int)),
                forall|k: int|
                    lights0.len() <= k < grid.traffic_lights@.len() ==> is_new_light(
                        #[trigger] grid.traffic_lights@[k],
                        grid.traffic_lights@[k].light_state,
                        grid.traffic_lights@[k].position,
                    ),
            decreases height - i,
        {
            let mut j: i32 = 0;
            while j < width
                invariant
                    0 <= i < height,
                    0 <= j,
                    width > 0 ==> j <= width,
                    width <= 0 ==> j == 0,
                    height as int * ROW_SPACING <= i32::MAX,
                    width as int * ROW_SPACING <= i32::MAX,
                    grid.points@ == points0 + grid_rows(height as int, width as int, i as int)
                        + row_prefix(height as int, width as int, i as int, j as int),
                    grid.vehicles@ == self.vehicles@,
                    grid.traffic_lights@.take(lights0.len() as int) == lights0,
                    lights0.len() <= grid.traffic_lights@.len(),
                    grid.traffic_lights@.skip(lights0.len() as int).map_values(
                        |l: TrafficLight| l.position,
                    ) == intersections(
                        grid_rows(height as int, width as int, i as int) + row_prefix(
                            height as int,
                            width as int,
                            i as int,
                            j as int,
                        ),
                    ),
                    forall|k: int|
                        lights0.len() <= k < grid.traffic_lights@.len() ==> is_new_light(
                            #[trigger] grid.traffic_lights@[k],
                            grid.traffic_lights@[k].light_state,
                            grid.traffic_lights@[k].position,
                        ),
                decreases width - j,
            {
                let point = Point {
                    x: j * ROW_SPACING,
                    y: i * ROW_SPACING,
                    is_intersection: (j > 0 && j < width - 1) || (i > 0 && i < height - 1),
                };
                let ghost before = grid_rows(height as int, width as int, i as int) + row_prefix(
                    height as int,
                    width as int,
                    i as int,
                    j as int,
                );
                let ghost after = grid_rows(height as int, width as int, i as int) + row_prefix(
                    height as int,
                    width as int,
                    i as int,
                    j + 1,
                );
                assert(point == grid_point(height as int, width as int, i as int, j as int));
                assert(after == before.push(point));
                assert(after.drop_last() == before);
                let ghost lights_before = grid.traffic_lights@;
                match TrafficLight::generate_traffic_light(&point) {
                    Ok(traffic_light) => {
                        let ghost s = choose|s: LightState| is_new_light(traffic_light, s, (point.x, point.y));
                        grid.traffic_lights.push(traffic_light);
                        assert(grid.traffic_lights@.skip(lights0.len() as int) == lights_before.skip(
                            lights0.len() as int,
                        ).push(traffic_light));
                        assert(grid.traffic_lights@.take(lights0.len() as int) == lights_before.take(
                            lights0.len() as int,
                        ));
                    },
                    Err(_) => {},
                }
                assert(grid.traffic_lights@.skip(lights0.len() as int).map_values(
                    |l: TrafficLight| l.position,
                ) == intersections(after));
                grid.points.push(point);
                j = j + 1;
            }
            assert(grid_rows(height as int, width as int, i + 1) == grid_rows(
                height as int,
                width as int,
                i as int,
            ) + row_prefix(height as int, width as int, i as int, width as int));
            assert(row_prefix(height as int, width as int, i as int, j as int) == row_prefix(
                height as int,
                width as int,
                i as int,
                width as int,
            ));
            i = i + 1;
        }
        assert(grid_rows(height as int, width as int, i as int) == grid_rows(
            height as int,
            width as int,
            height as int,
        ));
        proof {
            if height > 0 {
                lemma_grid_rows_len(height as int, width as int, height as int);
            }
        }
        grid
    }

    /// The phase of the first traffic light at `(x, y)`, if one stands there.
    pub fn light_at(&self, x: i32, y: i32) -> (r: Option<LightState>)
        ensures
            r is None <==> forall|k: int|
                0 <= k < self.traffic_lights@.len() ==> self.traffic_lights@[k].position != (x, y),
            r matches Some(s) ==> exists|k: int|
                0 <= k < self.traffic_lights@.len() && self.traffic_lights@[k].position == (x, y)
                    && self.traffic_lights@[k].light_state == s && forall|m: int|
                    0 <= m < k ==> self.traffic_lights@[m].position != (x, y),
    {
        let mut k: usize = 0;
        while k < self.traffic_lights.len()
            invariant
                k <= self.traffic_lights@.len(),
                forall|m: int| 0 <= m < k ==> self.traffic_lights@[m].position != (x, y),
            decreases self.traffic_lights.len() - k,
        {
            let light = self.traffic_lights[k];
            if light.position.0 == x && light.position.1 == y {
                return Some(light.light_state);
            }
            k = k + 1;
        }
        None
    }

    /// The symbol of the first vehicle at `(x, y)`, if one stands there.
    pub fn vehicle_symbol_at(&self, x: i32, y: i32) -> (r: Option<char>)
        ensures
            r is None <==> forall|k: int|
                0 <= k < self.vehicles@.len() ==> self.vehicles@[k].current_position != (x, y),
            r matches Some(c) ==> exists|k: int|
                0 <= k < self.vehicles@.len() && self.vehicles@[k].current_position == (x, y)
                    && c == symbol_of(self.vehicles@[k].vehicle_type) && forall|m: int|
                    0 <= m < k ==> self.vehicles@[m].current_position != (x, y),
    {
        let mut k: usize = 0;
        while k < self.vehicles.len()
            invariant
                k <= self.vehicles@.len(),
                forall|m: int| 0 <= m < k ==> self.vehicles@[m].current_position != (x, y),
            decreases self.vehicles.len() - k,
        {
            let vehicle = self.vehicles[k];
            if vehicle.current_position.0 == x && vehicle.current_position.1 == y {
                return Some(vehicle.vehicle_type.symbol());
            }
            k = k + 1;
        }
        None
    }

    /// Writes back a batch of vehicle updates, each carrying the index of the
    /// vehicle that it updated, then removes the vehicles that stood at their
    /// destination before the batch.
    ///
    /// A vehicle whose update did not complete keeps its previous value.
    pub fn apply_vehicle_updates(&mut self, completed: &Vec<(usize, Vehicle)>)
        ensures
            final(self).vehicles@ == kept(
                merged(old(self).vehicles@, completed@),
                en_route_flags(old(self).vehicles@),
            ),
            final(self).points@ == old(self).points@,
            final(self).traffic_lights@ == old(self).traffic_lights@,
    {
        let mut keep: Vec<bool> = Vec::new();
        let mut i: usize = 0;
        while i < self.vehicles.len()
            invariant
                i <= self.vehicles@.len(),
                keep@ == en_route_flags(self.vehicles@).take(i as int),
            decreases self.vehicles.len() - i,
        {
            let v = self.vehicles[i];
            let on_its_way = v.current_position.0 != v.destination.0 || v.current_position.1
                != v.destination.1;
            keep.push(on_its_way);
            assert(en_route_flags(self.vehicles@).take(i + 1) == en_route_flags(
                self.vehicles@,
            ).take(i as int).push(on_its_way));
            i = i + 1;
        }
        assert(keep@ == en_route_flags(self.vehicles@));
        proof {
            lemma_merged_len(self.vehicles@, completed@);
        }
        merge_completed(&mut self.vehicles, completed);
        self.vehicles = keep_marked(&self.vehicles, &keep);
    }

    /// Advances every vehicle by one step, then removes those that stood at
    /// their destination when the call began.
    ///
    /// Each vehicle is updated on its own copy, and the results are written
    /// back by index.
    pub fn update_vehicles(&mut self)
        requires
            forall|i: int|
                0 <= i < old(self).vehicles@.len() ==> arrived(old(self).vehicles@[i])
                    || old(self).vehicles@[i].current_speed >= 0,
        ensures
            final(self).vehicles@ == vehicles_after_tick(old(self).vehicles@),
            final(self).points@ == old(self).points@,
            final(self).traffic_lights@ == old(self).traffic_lights@,
    {
        let mut completed: Vec<(usize, Vehicle)> = Vec::new();
        let mut i: usize = 0;
        while i < self.vehicles.len()
            invariant
                i <= self.vehicles@.len(),
                forall|j: int|
                    0 <= j < self.vehicles@.len() ==> arrived(self.vehicles@[j])
                        || self.vehicles@[j].current_speed >= 0,
                completed@.len() == i,
                forall|j: int|
                    0 <= j < i ==> completed@[j].0 == j && completed@[j].1 == vehicle_after(
                        self.vehicles@[j],
                    ),
            decreases self.vehicles.len() - i,
        {
            let mut vehicle = self.vehicles[i];
            vehicle.update();
            completed.push((i, vehicle));
            i = i + 1;
        }
        proof {
            lemma_merge_keeps_order(self.vehicles@, completed@, |v: Vehicle| vehicle_after(v));
            assert forall|j: int| 0 <= j < self.vehicles@.len() implies completes(completed@, j) by {
                assert(completed@[j].0 as int == j);
            }
        }
        self.apply_vehicle_updates(&completed);
    }

    /// Lets `time_passed` milliseconds pass on every traffic light.
    pub fn update_traffic_lights(&mut self, time_passed: u64)
        ensures
            final(self).traffic_lights@ == old(self).traffic_lights@.map_values(
                |l: TrafficLight| light_after(l, time_passed),
            ),
            final(self).points@ == old(self).points@,
            final(self).vehicles@ == old(self).vehicles@,
    {
        TrafficLight::update_traffic_lights(&mut self.traffic_lights, time_passed);
    }
}

} // verus!

use vstd::prelude::*;

use crate::point::Point;
use crate::random::random_between;
use crate::scheduler::{completes, lemma_merge_keeps_order, merge_completed};

verus! {

/// Time that a light stays green, in milliseconds.
pub const GREEN_DURATION_MS: u64 = 3000;

/// Time that a light stays yellow, in milliseconds.
pub const YELLOW_DURATION_MS: u64 = 1000;

/// Time that a light stays red, in milliseconds.
pub const RED_DURATION_MS: u64 = 2000;

/// The phases of a traffic light, visited in the order Green, Yellow, Red.
#[derive(Clone, Copy, Debug, PartialEq, Eq, Structural)]
pub enum LightState {
    Green,
    Yellow,
    Red,
}

/// The phase that follows `s` in the cycle.
pub open spec fn phase_after(s: LightState) -> LightState {
    match s {
        LightState::Green => LightState::Yellow,
        LightState::Yellow => LightState::Red,
        LightState::Red => LightState::Green,
    }
}

/// A traffic light standing at an intersection.
///
/// Times are kept in whole milliseconds.
#[derive(Clone, Copy, Debug)]
pub struct TrafficLight {
    pub light_state: LightState,
    pub position: (i32, i32),
    /// Time spent in the current phase.
    pub time_in_state: u64,
    pub green_duration: u64,
    pub yellow_duration: u64,
    pub red_duration: u64,
}

/// How long `l` stays in phase `s`.
pub open spec fn duration_of(l: TrafficLight, s: LightState) -> u64 {
    match s {
        LightState::Green => l.green_duration,
        LightState::Yellow => l.yellow_duration,
        LightState::Red => l.red_duration,
    }
}

/// The light `l` once `dt` milliseconds have passed: the time accumulates, and
/// once it reaches the duration of the current phase the light moves to the
/// next phase with its timer at zero (the excess is dropped).
pub open spec fn light_after(l: TrafficLight, dt: u64) -> TrafficLight {
    if l.time_in_state + dt >= duration_of(l, l.light_state) {
        TrafficLight { light_state: phase_after(l.light_state), time_in_state: 0, ..l }
    } else {
        TrafficLight { time_in_state: (l.time_in_state + dt) as u64, ..l }
    }
}

/// A light as it is first put up: at `position`, in phase `s`, with its timer
/// at zero and the standard durations.
pub open spec fn is_new_light(l: TrafficLight, s: LightState, position: (i32, i32)) -> bool {
    &&& l.light_state == s
    &&& l.position == position
    &&& l.time_in_state == 0
    &&& l.green_duration == GREEN_DURATION_MS
    &&& l.yellow_duration == YELLOW_DURATION_MS
    &&& l.red_duration == RED_DURATION_MS
}

/// The phase that a draw of 1, 2 or 3 selects.
pub open spec fn phase_of_draw(n: int) -> LightState {
    if n == 1 {
        LightState::Green
    } else if n == 2 {
        LightState::Yellow
    } else {
        LightState::Red
    }
}

impl LightState {
    /// The phase that a draw of 1, 2 or 3 selects.
    pub fn from_draw(n: i32) -> (r: LightState)
        requires
            1 <= n <= 3,
        ensures
            r == phase_of_draw(n as int),
    {
        if n == 1 {
            LightState::Green
        } else if n == 2 {
            LightState::Yellow
        } else {
            LightState::Red
        }
    }
}

/// Letting each phase's full duration pass, three times in a row, brings a
/// light through the two other phases and back to the phase it started in.
pub proof fn lemma_cycle_closes(l: TrafficLight)
    ensures
        ({
            let l1 = light_after(l, duration_of(l, l.light_state));
            let l2 = light_after(l1, duration_of(l1, l1.light_state));
            let l3 = light_after(l2, duration_of(l2, l2.light_state));
            &&& l1.light_state == phase_after(l.light_state)
            &&& l2.light_state == phase_after(l1.light_state)
            &&& l1.light_state != l.light_state
            &&& l2.light_state != l.light_state
            &&& l3.light_state == l.light_state
            &&& l3.time_in_state == 0
        }),
{
}

/// When the elapsed time goes past the current phase's duration, the light
/// changes phase and its timer restarts at zero: the excess is not kept.
pub proof fn lemma_excess_time_is_dropped(l: TrafficLight, dt: u64)
    requires
        l.time_in_state + dt > duration_of(l, l.light_state),
    ensures
        light_after(l, dt).light_state == phase_after(l.light_state),
        light_after(l, dt).time_in_state == 0,
{
}

impl TrafficLight {
    pub fn new(light_state: LightState, position: (i32, i32)) -> (r: TrafficLight)
        ensures
            is_new_light(r, light_state, position),
    {
        TrafficLight {
            light_state,
            position,
            time_in_state: 0,
            green_duration: GREEN_DURATION_MS,
            yellow_duration: YELLOW_DURATION_MS,
            red_duration: RED_DURATION_MS,
        }
    }

    /// A light for `point` in a random phase, or an error when `point` is not
    /// an intersection.
    pub fn generate_traffic_light(point: &Point) -> (r: Result<TrafficLight, &'static str>)
        ensures
            r is Ok <==> point.is_intersection,
            r matches Ok(l) ==> exists|s: LightState| is_new_light(l, s, (point.x, point.y)),
            r matches Err(e) ==> e@ == "Given point is not an intersection"@,
    {
        proof {
            reveal_strlit("Given point is not an intersection");
        }
        if point.is_intersection {
            let light_state = LightState::from_draw(random_between(1, 3));
            Ok(TrafficLight::new(light_state, (point.x, point.y)))
        } else {
            Err("Given point is not an intersection")
        }
    }

    /// Lets `time_passed` milliseconds pass on every light of the collection.
    ///
    /// Each light is updated on its own copy, and the results are written back
    /// by index.
    pub fn update_traffic_lights(traffic_lights: &mut Vec<TrafficLight>, time_passed: u64)
        ensures
            final(traffic_lights)@ == old(traffic_lights)@.map_values(
                |l: TrafficLight| light_after(l, time_passed),
            ),
    {
        let mut completed: Vec<(usize, TrafficLight)> = Vec::new();
        let mut i: usize = 0;
        while i < traffic_lights.len()
            invariant
                i <= traffic_lights.len(),
                completed@.len() == i,
                forall|j: int|
                    0 <= j < i ==> completed@[j].0 == j && completed@[j].1 == light_after(traffic_lights@[j], time_passed),
            decreases traffic_lights.len() - i,
        {
            let mut light = traffic_lights[i];
            light.update(time_passed);
            completed.push((i, light));
            i = i + 1;
        }
        proof {
            lemma_merge_keeps_order(
                traffic_lights@,
                completed@,
                |l: TrafficLight| light_after(l, time_passed),
            );
            assert forall|j: int| 0 <= j < traffic_lights@.len() implies completes(
                completed@,
                j,
            ) by {
                assert(completed@[j].0 as int == j);
            }
        }
        merge_completed(traffic_lights, &completed);
    }

    /// How long the light stays in its current phase.
    pub fn get_current_state_duration(&self) -> (r: u64)
        ensures
            r == duration_of(*self, self.light_state),
    {
        match self.light_state {
            LightState::Green => self.green_duration,
            LightState::Yellow => self.yellow_duration,
            LightState::Red => self.red_duration,
        }
    }

    /// The phase that follows the current one.
    pub fn next_state(&self) -> (r: LightState)
        ensures
            r == phase_after(self.light_state),
    {
        match self.light_state {
            LightState::Green => LightState::Yellow,
            LightState::Yellow => LightState::Red,
            LightState::Red => LightState::Green,
        }
    }

    /// Lets `time_passed` milliseconds pass on this light.
    pub fn update(&mut self, time_passed: u64)
        ensures
            *final(self) == light_after(*old(self), time_passed),
    {
        // A sum too large for u64 is past every duration, so saturating keeps
        // the outcome of the comparison below.
        self.time_in_state = self.time_in_state.saturating_add(time_passed);
        if self.time_in_state >= self.get_current_state_duration() {
            self.light_state = self.next_state();
            self.time_in_state = 0;
        }
    }
}

} // verus!

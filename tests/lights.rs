use traffic_sim::light::{
    LightState, TrafficLight, GREEN_DURATION_MS, RED_DURATION_MS, YELLOW_DURATION_MS,
};
use traffic_sim::point::Point;

#[test]
fn new_light_starts_with_timer_at_zero() {
    let l = TrafficLight::new(LightState::Red, (10, 20));
    assert_eq!(l.light_state, LightState::Red);
    assert_eq!(l.position, (10, 20));
    assert_eq!(l.time_in_state, 0);
    assert_eq!(l.green_duration, 3000);
    assert_eq!(l.yellow_duration, 1000);
    assert_eq!(l.red_duration, 2000);
}

#[test]
fn green_past_its_duration_turns_yellow_and_drops_the_excess() {
    let mut l = TrafficLight::new(LightState::Green, (10, 10));
    l.update(3500);
    assert_eq!(l.light_state, LightState::Yellow);
    assert_eq!(l.time_in_state, 0);
}

#[test]
fn time_accumulates_below_the_duration() {
    let mut l = TrafficLight::new(LightState::Green, (10, 10));
    l.update(1200);
    assert_eq!(l.light_state, LightState::Green);
    assert_eq!(l.time_in_state, 1200);
    l.update(1000);
    assert_eq!(l.time_in_state, 2200);
    l.update(799);
    assert_eq!(l.light_state, LightState::Green);
    assert_eq!(l.time_in_state, 2999);
    l.update(1);
    assert_eq!(l.light_state, LightState::Yellow);
    assert_eq!(l.time_in_state, 0);
}

#[test]
fn huge_elapsed_time_still_changes_phase() {
    let mut l = TrafficLight::new(LightState::Red, (10, 10));
    l.update(1);
    l.update(u64::MAX);
    assert_eq!(l.light_state, LightState::Green);
    assert_eq!(l.time_in_state, 0);
}

#[test]
fn full_durations_cycle_back_to_the_start() {
    for start in [LightState::Green, LightState::Yellow, LightState::Red] {
        let mut l = TrafficLight::new(start, (10, 10));
        let mut seen = Vec::new();
        for _ in 0..3 {
            let d = l.get_current_state_duration();
            l.update(d);
            assert_eq!(l.time_in_state, 0);
            seen.push(l.light_state);
        }
        assert_eq!(l.light_state, start);
        assert_ne!(seen[0], start);
        assert_ne!(seen[1], start);
    }
}

#[test]
fn durations_and_successors_follow_the_phase() {
    let g = TrafficLight::new(LightState::Green, (0, 0));
    let y = TrafficLight::new(LightState::Yellow, (0, 0));
    let r = TrafficLight::new(LightState::Red, (0, 0));
    assert_eq!(g.get_current_state_duration(), GREEN_DURATION_MS);
    assert_eq!(y.get_current_state_duration(), YELLOW_DURATION_MS);
    assert_eq!(r.get_current_state_duration(), RED_DURATION_MS);
    assert_eq!(g.next_state(), LightState::Yellow);
    assert_eq!(y.next_state(), LightState::Red);
    assert_eq!(r.next_state(), LightState::Green);
    assert_eq!(LightState::from_draw(1), LightState::Green);
    assert_eq!(LightState::from_draw(2), LightState::Yellow);
    assert_eq!(LightState::from_draw(3), LightState::Red);
}

#[test]
fn light_needs_an_intersection() {
    let edge = Point { x: 0, y: 10, is_intersection: false };
    assert_eq!(
        TrafficLight::generate_traffic_light(&edge).err(),
        Some("Given point is not an intersection")
    );
    let corner = Point { x: 0, y: 0, is_intersection: false };
    assert_eq!(
        TrafficLight::generate_traffic_light(&corner).err(),
        Some("Given point is not an intersection")
    );
    let middle = Point { x: 10, y: 10, is_intersection: true };
    let l = TrafficLight::generate_traffic_light(&middle).unwrap();
    assert_eq!(l.position, (10, 10));
    assert_eq!(l.time_in_state, 0);
    assert_eq!(l.green_duration, GREEN_DURATION_MS);
}

#[test]
fn generated_lights_start_in_every_phase() {
    let middle = Point { x: 10, y: 10, is_intersection: true };
    let mut seen = Vec::new();
    for _ in 0..300 {
        let s = TrafficLight::generate_traffic_light(&middle).unwrap().light_state;
        if !seen.contains(&s) {
            seen.push(s);
        }
    }
    assert_eq!(seen.len(), 3);
}

#[test]
fn batch_update_keeps_order() {
    let mut lights = vec![
        TrafficLight::new(LightState::Green, (10, 10)),
        TrafficLight::new(LightState::Yellow, (20, 10)),
        TrafficLight::new(LightState::Red, (10, 20)),
    ];
    TrafficLight::update_traffic_lights(&mut lights, 1500);
    assert_eq!(lights.len(), 3);
    assert_eq!(lights[0].light_state, LightState::Green);
    assert_eq!(lights[0].time_in_state, 1500);
    assert_eq!(lights[1].light_state, LightState::Red);
    assert_eq!(lights[1].time_in_state, 0);
    assert_eq!(lights[2].light_state, LightState::Red);
    assert_eq!(lights[2].time_in_state, 1500);
    assert_eq!(lights[2].position, (10, 20));
}

#[test]
fn point_symbols() {
    assert_eq!(Point { x: 0, y: 0, is_intersection: false }.symbol(), 'O');
    assert_eq!(Point { x: 10, y: 10, is_intersection: true }.symbol(), 'X');
}

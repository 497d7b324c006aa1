use traffic_sim::grid::Grid;
use traffic_sim::light::{LightState, TrafficLight};
use traffic_sim::point::Point;
use traffic_sim::scheduler::merge_completed;
use traffic_sim::vehicle::{Vehicle, VehicleType};

fn vehicle(id: u64, position: (i32, i32), destination: (i32, i32)) -> Vehicle {
    Vehicle::spawn(id, VehicleType::Car, position, destination)
}

#[test]
fn merge_restores_index_order_whatever_the_completion_order() {
    let mut entities = vec![10, 20, 30, 40];
    let completed = vec![(2, 31), (0, 11), (3, 41), (1, 21)];
    merge_completed(&mut entities, &completed);
    assert_eq!(entities, vec![11, 21, 31, 41]);
}

#[test]
fn merge_keeps_entities_whose_update_failed() {
    let mut entities = vec![10, 20, 30];
    merge_completed(&mut entities, &vec![(2, 33)]);
    assert_eq!(entities, vec![10, 20, 33]);
    merge_completed(&mut entities, &vec![]);
    assert_eq!(entities, vec![10, 20, 33]);
}

#[test]
fn merge_drops_out_of_range_updates_and_later_ones_win() {
    let mut entities = vec![1, 2];
    merge_completed(&mut entities, &vec![(5, 99), (0, 7), (0, 8)]);
    assert_eq!(entities, vec![8, 2]);
}

#[test]
fn grid_of_three_by_three() {
    let grid = Grid::new().generate_grid(3, 3);
    let coords: Vec<(i32, i32)> = grid.points.iter().map(|p| (p.x, p.y)).collect();
    assert_eq!(
        coords,
        vec![(0, 0), (10, 0), (20, 0), (0, 10), (10, 10), (20, 10), (0, 20), (10, 20), (20, 20)]
    );
    let flags: Vec<bool> = grid.points.iter().map(|p| p.is_intersection).collect();
    assert_eq!(flags, vec![false, true, false, true, true, true, false, true, false]);
    let lights: Vec<(i32, i32)> = grid.traffic_lights.iter().map(|l| l.position).collect();
    assert_eq!(lights, vec![(10, 0), (0, 10), (10, 10), (20, 10), (10, 20)]);
    assert!(grid.traffic_lights.iter().all(|l| l.time_in_state == 0));
    assert!(grid.vehicles.is_empty());
}

#[test]
fn empty_and_thin_grids() {
    assert!(Grid::new().generate_grid(0, 3).points.is_empty());
    assert!(Grid::new().generate_grid(3, 0).points.is_empty());
    assert!(Grid::new().generate_grid(-2, 4).points.is_empty());
    let line = Grid::new().generate_grid(1, 2);
    assert_eq!(line.points.len(), 2);
    assert!(line.traffic_lights.is_empty());
}

#[test]
fn arrived_vehicle_is_pruned_and_the_others_keep_their_order() {
    let mut grid = Grid::new();
    grid.vehicles = vec![
        vehicle(0, (0, 0), (0, 20)),
        vehicle(1, (10, 10), (10, 10)),
        vehicle(2, (30, 10), (0, 10)),
    ];
    grid.update_vehicles();
    let ids: Vec<u64> = grid.vehicles.iter().map(|v| v.id).collect();
    assert_eq!(ids, vec![0, 2]);
    assert_eq!(grid.vehicles[0].current_position, (0, 2));
    assert_eq!(grid.vehicles[1].current_position, (28, 10));
}

#[test]
fn vehicle_arriving_this_tick_stays_until_the_next() {
    let mut grid = Grid::new();
    grid.vehicles = vec![vehicle(0, (0, 19), (0, 20)), vehicle(1, (0, 0), (0, 20))];
    grid.update_vehicles();
    assert_eq!(grid.vehicles.len(), 2);
    assert_eq!(grid.vehicles[0].current_position, (0, 20));
    grid.update_vehicles();
    let ids: Vec<u64> = grid.vehicles.iter().map(|v| v.id).collect();
    assert_eq!(ids, vec![1]);
    assert_eq!(grid.vehicles[0].current_position, (0, 4));
}

#[test]
fn failed_vehicle_update_keeps_the_old_value() {
    let mut grid = Grid::new();
    grid.vehicles = vec![
        vehicle(0, (0, 0), (0, 20)),
        vehicle(1, (10, 0), (10, 0)),
        vehicle(2, (0, 10), (20, 10)),
    ];
    let mut moved = grid.vehicles[2];
    moved.update();
    grid.apply_vehicle_updates(&vec![(2, moved)]);
    let ids: Vec<u64> = grid.vehicles.iter().map(|v| v.id).collect();
    assert_eq!(ids, vec![0, 2]);
    assert_eq!(grid.vehicles[0].current_position, (0, 0));
    assert_eq!(grid.vehicles[1].current_position, (2, 10));
}

#[test]
fn grid_lights_advance_together() {
    let mut grid = Grid::new();
    grid.traffic_lights = vec![
        TrafficLight::new(LightState::Green, (10, 10)),
        TrafficLight::new(LightState::Red, (20, 10)),
    ];
    grid.update_traffic_lights(2000);
    assert_eq!(grid.traffic_lights[0].light_state, LightState::Green);
    assert_eq!(grid.traffic_lights[0].time_in_state, 2000);
    assert_eq!(grid.traffic_lights[1].light_state, LightState::Green);
    assert_eq!(grid.traffic_lights[1].time_in_state, 0);
}

#[test]
fn lookups_find_the_first_match() {
    let mut grid = Grid::new();
    grid.points.push(Point { x: 10, y: 10, is_intersection: true });
    grid.traffic_lights = vec![
        TrafficLight::new(LightState::Yellow, (10, 10)),
        TrafficLight::new(LightState::Red, (10, 10)),
    ];
    grid.vehicles = vec![
        Vehicle::spawn(0, VehicleType::Bus, (3, 0), (30, 0)),
        Vehicle::spawn(1, VehicleType::Emergency, (3, 0), (30, 0)),
    ];
    assert_eq!(grid.light_at(10, 10), Some(LightState::Yellow));
    assert_eq!(grid.light_at(20, 10), None);
    assert_eq!(grid.vehicle_symbol_at(3, 0), Some('B'));
    assert_eq!(grid.vehicle_symbol_at(4, 0), None);
}

use vstd::prelude::*;

use crate::random::random_between;

verus! {

/// Distance between two neighbouring grid lines.
pub const ROW_SPACING: i32 = 10;

#[derive(Clone, Copy, Debug, PartialEq, Eq, Structural)]
pub enum VehicleType {
    Car,
    Bus,
    Emergency,
}

/// The speed that a vehicle of type `t` is given, in grid units per tick.
pub open spec fn speed_of(t: VehicleType) -> i32 {
    match t {
        VehicleType::Car => 2,
        VehicleType::Bus => 1,
        VehicleType::Emergency => 3,
    }
}

/// The priority that a vehicle of type `t` is given; higher is more urgent.
pub open spec fn priority_of(t: VehicleType) -> u8 {
    match t {
        VehicleType::Car => 1,
        VehicleType::Bus => 2,
        VehicleType::Emergency => 3,
    }
}

/// The character that marks a vehicle of type `t` on a drawing of the grid.
pub open spec fn symbol_of(t: VehicleType) -> char {
    match t {
        VehicleType::Car => 'C',
        VehicleType::Bus => 'B',
        VehicleType::Emergency => 'E',
    }
}

/// The type that a draw of 1, 2 or 3 selects.
pub open spec fn type_of_draw(n: int) -> VehicleType {
    if n == 1 {
        VehicleType::Car
    } else if n == 2 {
        VehicleType::Bus
    } else {
        VehicleType::Emergency
    }
}

impl VehicleType {
    /// The type that a draw of 1, 2 or 3 selects.
    pub fn from_draw(n: i32) -> (r: VehicleType)
        requires
            1 <= n <= 3,
        ensures
            r == type_of_draw(n as int),
    {
        if n == 1 {
            VehicleType::Car
        } else if n == 2 {
            VehicleType::Bus
        } else {
            VehicleType::Emergency
        }
    }

    pub fn speed(&self) -> (r: i32)
        ensures
            r == speed_of(*self),
    {
        match self {
            VehicleType::Car => 2,
            VehicleType::Bus => 1,
            VehicleType::Emergency => 3,
        }
    }

    pub fn priority(&self) -> (r: u8)
        ensures
            r == priority_of(*self),
    {
        match self {
            VehicleType::Car => 1,
            VehicleType::Bus => 2,
            VehicleType::Emergency => 3,
        }
    }

    /// The character that marks a vehicle of this type on a drawing of the grid.
    pub fn symbol(&self) -> (r: char)
        ensures
            r == symbol_of(*self),
    {
        match self {
            VehicleType::Car => 'C',
            VehicleType::Bus => 'B',
            VehicleType::Emergency => 'E',
        }
    }
}

#[derive(Clone, Copy, Debug)]
pub struct Vehicle {
    pub id: u64,
    pub vehicle_type: VehicleType,
    pub current_position: (i32, i32),
    /// Grid units covered per tick.
    pub current_speed: i32,
    pub max_speed: i32,
    pub destination: (i32, i32),
    pub priority: u8,
}

/// Whether `v` stands at its destination.
pub open spec fn arrived(v: Vehicle) -> bool {
    v.current_position == v.destination
}

/// The coordinate reached from `from` by moving at most `s` units toward `to`.
pub open spec fn stepped(from: int, to: int, s: int) -> int {
    if from <= to {
        if to - from <= s { to } else { from + s }
    } else {
        if from - to <= s { to } else { from - s }
    }
}

/// Whether a vehicle at `pos` bound for `dest` moves along x on its next step.
///
/// It does when x still differs and it is on the destination's row or on any
/// horizontal grid line; otherwise it moves along y.
pub open spec fn moves_along_x(pos: (i32, i32), dest: (i32, i32)) -> bool {
    pos.0 != dest.0 && (pos.1 == dest.1 || pos.1 % ROW_SPACING == 0)
}

/// The vehicle `v` after one step: it stays where it is at its destination;
/// otherwise one axis moves toward the destination by
/// the speed, clamped so that it never passes the destination.
pub open spec fn vehicle_after(v: Vehicle) -> Vehicle {
    let (x, y) = v.current_position;
    let (dx, dy) = v.destination;
    if arrived(v) {
        v
    } else if moves_along_x(v.current_position, v.destination) {
        Vehicle { current_position: (stepped(x as int, dx as int, v.current_speed as int) as i32, y), ..v }
    } else {
        Vehicle { current_position: (x, stepped(y as int, dy as int, v.current_speed as int) as i32), ..v }
    }
}

/// Moves `from` toward `to` by at most `speed`.
fn step_toward(from: i32, to: i32, speed: i32) -> (r: i32)
    requires
        speed >= 0,
    ensures
        r as int == stepped(from as int, to as int, speed as int),
{
    if from <= to {
        if (to as i64) - (from as i64) <= speed as i64 {
            to
        } else {
            from + speed
        }
    } else {
        if (from as i64) - (to as i64) <= speed as i64 {
            to
        } else {
            from - speed
        }
    }
}

/// Columns of the simulated grid.
pub const GRID_WIDTH: i32 = 3;

/// Rows of the simulated grid.
pub const GRID_HEIGHT: i32 = 3;

/// Distance between two integers.
pub open spec fn gap(a: int, b: int) -> int {
    if a <= b { b - a } else { a - b }
}

pub open spec fn min_of(a: int, b: int) -> int {
    if a <= b { a } else { b }
}

/// A vehicle that stands at its destination is left as it is by a step,
/// whatever its speed.
pub proof fn lemma_step_at_destination_is_noop(v: Vehicle)
    requires
        arrived(v),
    ensures
        vehicle_after(v) == v,
{
}

/// One step moves a vehicle along exactly one axis, by the smaller of its speed
/// and its remaining distance on that axis, and never past its destination.
pub proof fn lemma_step_is_clamped(v: Vehicle)
    requires
        v.current_speed >= 0,
        !arrived(v),
    ensures
        ({
            let (x, y) = v.current_position;
            let (dx, dy) = v.destination;
            let (nx, ny) = vehicle_after(v).current_position;
            let s = v.current_speed as int;
            if moves_along_x(v.current_position, v.destination) {
                &&& ny == y
                &&& x != dx
                &&& gap(x as int, nx as int) == min_of(s, gap(x as int, dx as int))
                &&& gap(nx as int, dx as int) == gap(x as int, dx as int) - min_of(s, gap(x as int, dx as int))
            } else {
                &&& nx == x
                &&& y != dy
                &&& gap(y as int, ny as int) == min_of(s, gap(y as int, dy as int))
                &&& gap(ny as int, dy as int) == gap(y as int, dy as int) - min_of(s, gap(y as int, dy as int))
            }
        }),
{
}

/// Whether `v` is a vehicle as [`Vehicle::spawn`] makes it.
pub open spec fn is_spawned(v: Vehicle, id: u64, t: VehicleType, position: (i32, i32), destination: (i32, i32)) -> bool {
    v == Vehicle {
        id,
        vehicle_type: t,
        current_position: position,
        current_speed: speed_of(t),
        max_speed: speed_of(t),
        destination,
        priority: priority_of(t),
    }
}

/// Whether `c` is a multiple of the row spacing between 0 and `cells` lines.
pub open spec fn on_grid_line(c: int, cells: int) -> bool {
    0 <= c <= cells * ROW_SPACING && c % (ROW_SPACING as int) == 0
}

/// Hands out vehicle identifiers in increasing order.
pub struct VehicleIds {
    next: u64,
}

impl VehicleIds {
    /// The identifier that the next call of [`VehicleIds::take`] returns.
    pub closed spec fn upcoming(&self) -> u64 {
        self.next
    }

    pub fn new() -> (r: VehicleIds)
        ensures
            r.upcoming() == 0,
    {
        VehicleIds { next: 0 }
    }

    /// Whether another identifier can be handed out.
    pub fn has_next(&self) -> (r: bool)
        ensures
            r == (self.upcoming() < u64::MAX),
    {
        self.next < u64::MAX
    }

    /// Hands out the next identifier.
    pub fn take(&mut self) -> (r: u64)
        requires
            old(self).upcoming() < u64::MAX,
        ensures
            r == old(self).upcoming(),
            final(self).upcoming() == old(self).upcoming() + 1,
    {
        let r = self.next;
        self.next = self.next + 1;
        r
    }
}

impl Vehicle {
    pub fn new(
        id: u64,
        vehicle_type: VehicleType,
        current_position: (i32, i32),
        current_speed: i32,
        max_speed: i32,
        destination: (i32, i32),
        priority: u8,
    ) -> (r: Vehicle)
        ensures
            r == (Vehicle {
                id,
                vehicle_type,
                current_position,
                current_speed,
                max_speed,
                destination,
                priority,
            }),
    {
        Vehicle {
            id,
            vehicle_type,
            current_position,
            current_speed,
            max_speed,
            destination,
            priority,
        }
    }

    /// A new vehicle of type `vehicle_type`, driving at its type's speed.
    pub fn spawn(id: u64, vehicle_type: VehicleType, position: (i32, i32), destination: (i32, i32)) -> (r: Vehicle)
        ensures
            is_spawned(r, id, vehicle_type, position, destination),
    {
        let speed = vehicle_type.speed();
        Vehicle::new(id, vehicle_type, position, speed, speed, destination, vehicle_type.priority())
    }

    /// A vehicle with identifier `id` and a random type, start and destination.
    ///
    /// The destination is a grid point. The start lies on a vertical grid line
    /// when its x is 0 and on a horizontal one otherwise.
    pub fn generate_vehicle(id: u64) -> (r: Vehicle)
        ensures
            exists|t: VehicleType| is_spawned(r, id, t, r.current_position, r.destination),
            0 <= r.current_position.0 <= GRID_WIDTH * ROW_SPACING,
            0 <= r.current_position.1 <= GRID_HEIGHT * ROW_SPACING,
            r.current_position.0 != 0 ==> on_grid_line(r.current_position.1 as int, GRID_HEIGHT as int),
            on_grid_line(r.destination.0 as int, GRID_WIDTH as int),
            on_grid_line(r.destination.1 as int, GRID_HEIGHT as int),
    {
        let vehicle_type = VehicleType::from_draw(random_between(1, 3));
        let x = random_between(0, GRID_WIDTH * ROW_SPACING);
        let y = if x != 0 {
            random_between(0, GRID_HEIGHT) * ROW_SPACING
        } else {
            random_between(0, GRID_HEIGHT * ROW_SPACING)
        };
        let dest_x = random_between(0, GRID_WIDTH) * ROW_SPACING;
        let dest_y = random_between(0, GRID_HEIGHT) * ROW_SPACING;
        let r = Vehicle::spawn(id, vehicle_type, (x, y), (dest_x, dest_y));
        assert(is_spawned(r, id, vehicle_type, r.current_position, r.destination));
        r
    }

    /// Advances the vehicle by one step toward its destination.
    ///
    /// The step does not depend on elapsed time: one call covers `current_speed`
    /// grid units at most, along one axis. A vehicle at its destination is left
    /// unchanged, whatever its speed.
    pub fn update(&mut self)
        requires
            arrived(*old(self)) || old(self).current_speed >= 0,
        ensures
            *final(self) == vehicle_after(*old(self)),
    {
        let (x, y) = self.current_position;
        let (dx, dy) = self.destination;
        if x == dx && y == dy {
            return;
        }
        if x != dx && (y == dy || y % ROW_SPACING == 0) {
            self.current_position = (step_toward(x, dx, self.current_speed), y);
        } else {
            self.current_position = (x, step_toward(y, dy, self.current_speed));
        }
    }
}

} // verus!

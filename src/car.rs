//! Cars: they enter at the top of the pitch and drive straight down.

use vstd::prelude::*;
use crate::geometry::{div_toward_zero_wide, normalize, normalized, scale, scaled, trunc_div, Vec2};
use crate::pitch::{random_column, LEFT_WALL, RIGHT_WALL, TOP_WALL};
use crate::player::clamp;

verus! {

/// A car's speed, in world units per second.
pub const CAR_SPEED: i32 = 500;

/// Heading of a new car, before normalisation (milli-units).
pub const INITIAL_CAR_DIRECTION_Y: i32 = -500;

/// Velocity in milli-units per second.
#[derive(Clone, Copy, Debug, PartialEq, Eq, Structural)]
pub struct Velocity(pub Vec2);

#[derive(Clone, Copy, Debug, PartialEq, Eq, Structural)]
pub struct Car {
    pub translation: Vec2,
    pub velocity: Velocity,
}

/// A new car at column `x` of the top wall, heading along the normalised
/// initial direction at `CAR_SPEED`.
pub open spec fn car_at(x: i32) -> Car {
    Car {
        translation: Vec2 { x, y: TOP_WALL },
        velocity: Velocity(scaled(normalized(0, INITIAL_CAR_DIRECTION_Y as int), CAR_SPEED as int)),
    }
}

pub fn spawn_car_at(x: i32) -> (r: Car)
    ensures
        r == car_at(x),
        r.velocity.0 == (Vec2 { x: 0, y: -500_000i32 }),
{
    let d = normalize(0, INITIAL_CAR_DIRECTION_Y as i64);
    proof {
        crate::geometry::lemma_floor_sqrt_unique(250_000, 500);
        assert(d == (Vec2 { x: 0, y: -1000i32 }));
    }
    Car { translation: Vec2 { x, y: TOP_WALL }, velocity: Velocity(scale(d, CAR_SPEED)) }
}

/// A new car at a random column between the side walls.
pub fn spawn_car() -> (r: Car)
    ensures
        LEFT_WALL <= r.translation.x < RIGHT_WALL,
        r == car_at(r.translation.x),
{
    spawn_car_at(random_column())
}

pub open spec fn moved_coordinate(c: int, v: int, dt_ms: int) -> int {
    clamp(c + trunc_div(v * dt_ms, 1000), i32::MIN as int, i32::MAX as int)
}

/// The car after driving `dt_ms` milliseconds at its velocity.
pub open spec fn driven(car: Car, dt_ms: int) -> Car {
    Car {
        translation: Vec2 {
            x: moved_coordinate(car.translation.x as int, car.velocity.0.x as int, dt_ms) as i32,
            y: moved_coordinate(car.translation.y as int, car.velocity.0.y as int, dt_ms) as i32,
        },
        ..car
    }
}

fn move_coordinate(c: i32, v: i32, dt_ms: u32) -> (r: i32)
    ensures
        r as int == moved_coordinate(c as int, v as int, dt_ms as int),
{
    assert(-0x1_0000_0000_0000_0000 <= v * dt_ms <= 0x1_0000_0000_0000_0000) by (nonlinear_arith)
        requires
            i32::MIN <= v <= i32::MAX,
            0 <= dt_ms <= u32::MAX,
    ;
    let step = div_toward_zero_wide(v as i128 * dt_ms as i128, 1000);
    proof {
        let m = v * dt_ms;
        if m >= 0 {
            assert(m / 1000 <= m);
        } else {
            assert((-m) / 1000 <= -m);
        }
    }
    let n = c as i128 + step;
    if n < i32::MIN as i128 {
        i32::MIN
    } else if n > i32::MAX as i128 {
        i32::MAX
    } else {
        n as i32
    }
}

/// Moves the car by its velocity over `dt_ms` milliseconds.
pub fn apply_velocity(car: &mut Car, dt_ms: u32)
    ensures
        *final(car) == driven(*old(car), dt_ms as int),
{
    let x = move_coordinate(car.translation.x, car.velocity.0.x, dt_ms);
    let y = move_coordinate(car.translation.y, car.velocity.0.y, dt_ms);
    car.translation = Vec2 { x, y };
}

} // verus!

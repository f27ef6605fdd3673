//! The enemy: where it appears and how it chases the ball holder.

use vstd::prelude::*;
use crate::geometry::{div_toward_zero_wide, length, length_of, normalize, normalized, trunc_div, Vec2};
use crate::pitch::{random_column, LEFT_WALL, RIGHT_WALL, TOP_WALL};
use crate::player::clamp;
use crate::possession::{has_holder, holder_index, Arena};

verus! {

/// Starting speed, in milli-units per second.
pub const INITIAL_SPEED: u32 = 400_000;

/// Speed gained at every step, in milli-units per second.
pub const SPEED_RAMP: u32 = 800;

/// Within this distance (milli-units) of its target the enemy goes at half speed.
pub const SLOW_DOWN_RADIUS: u64 = 100_000;

pub const ENEMY_HEALTH: u32 = 100;

/// The enemy: its speed for the current step, the speed it has built up,
/// its health (carried, not used by any rule) and its position.
#[derive(Clone, Copy, Debug, PartialEq, Eq, Structural)]
pub struct Enemy {
    pub speed: u32,
    pub current_speed: u32,
    pub health: u32,
    pub translation: Vec2,
}

pub open spec fn enemy_at(x: i32) -> Enemy {
    Enemy {
        speed: INITIAL_SPEED,
        current_speed: INITIAL_SPEED,
        health: ENEMY_HEALTH,
        translation: Vec2 { x, y: TOP_WALL },
    }
}

/// The enemy entering at column `x` of the top wall.
pub fn spawn_enemy_at(x: i32) -> (r: Enemy)
    ensures
        r == enemy_at(x),
{
    Enemy {
        speed: INITIAL_SPEED,
        current_speed: INITIAL_SPEED,
        health: ENEMY_HEALTH,
        translation: Vec2 { x, y: TOP_WALL },
    }
}

/// The enemy entering at a random column of the top wall, between the
/// side walls.
pub fn spawn_enemy() -> (r: Enemy)
    ensures
        LEFT_WALL <= r.translation.x < RIGHT_WALL,
        r == enemy_at(r.translation.x),
{
    let x = random_column();
    spawn_enemy_at(x)
}

/// Where the enemy heads: the ball holder's position, if anyone holds it.
pub open spec fn chase_target(players: Seq<crate::player::Player>) -> Option<Vec2> {
    if has_holder(players) {
        Some(players[holder_index(players)].translation)
    } else {
        None
    }
}

/// The enemy after one step of `dt_ms` milliseconds toward `target`: it
/// moves along the normalised direction at its speed (half its built-up
/// speed within `SLOW_DOWN_RADIUS`, all of it beyond, unchanged at exactly
/// that distance), and builds up `SPEED_RAMP` more speed. Without a target
/// it stays as it is.
pub open spec fn chased(en: Enemy, target: Option<Vec2>, dt_ms: int) -> Enemy {
    match target {
        None => en,
        Some(t) => {
            let dx = t.x - en.translation.x;
            let dy = t.y - en.translation.y;
            let d = normalized(dx, dy);
            let dist = length(dx, dy);
            let speed: u32 = if dist < SLOW_DOWN_RADIUS {
                (en.current_speed / 2) as u32
            } else if dist > SLOW_DOWN_RADIUS {
                en.current_speed
            } else {
                en.speed
            };
            Enemy {
                speed,
                current_speed: clamp(en.current_speed + SPEED_RAMP, 0, u32::MAX as int) as u32,
                translation: Vec2 {
                    x: clamp(
                        en.translation.x + trunc_div(d.x * speed * dt_ms, 1_000_000),
                        i32::MIN as int,
                        i32::MAX as int,
                    ) as i32,
                    y: clamp(
                        en.translation.y + trunc_div(d.y * speed * dt_ms, 1_000_000),
                        i32::MIN as int,
                        i32::MAX as int,
                    ) as i32,
                },
                ..en
            }
        },
    }
}

fn clamp_i32(v: i128) -> (r: i32)
    ensures
        r as int == clamp(v as int, i32::MIN as int, i32::MAX as int),
{
    if v < i32::MIN as i128 {
        i32::MIN
    } else if v > i32::MAX as i128 {
        i32::MAX
    } else {
        v as i32
    }
}

fn step_toward(pos: i32, d: i32, speed: u32, dt_ms: u32) -> (r: i32)
    requires
        -1000 <= d <= 1000,
    ensures
        r as int == clamp(pos + trunc_div(d * speed * dt_ms, 1_000_000), i32::MIN as int, i32::MAX as int),
{
    assert(-0x1_0000_0000_0000 <= d * speed <= 0x1_0000_0000_0000) by (nonlinear_arith)
        requires
            -1000 <= d <= 1000,
            0 <= speed <= u32::MAX,
    ;
    assert(-0x1_0000_0000_0000_0000_0000 <= d * speed * dt_ms <= 0x1_0000_0000_0000_0000_0000) by (nonlinear_arith)
        requires
            -1000 <= d <= 1000,
            0 <= speed <= u32::MAX,
            0 <= dt_ms <= u32::MAX,
    ;
    let m = (d as i128) * (speed as i128) * (dt_ms as i128);
    let q = div_toward_zero_wide(m, 1_000_000);
    proof {
        assert(-0x1_0000_0000_0000_0000_0000 <= trunc_div(m as int, 1_000_000) <= 0x1_0000_0000_0000_0000_0000) by {
            if m >= 0 {
                assert((m as int) / 1_000_000 <= m as int);
            } else {
                assert((-(m as int)) / 1_000_000 <= -(m as int));
            }
        }
    }
    clamp_i32(pos as i128 + q)
}

/// Moves the enemy one step of `dt_ms` milliseconds toward the ball holder.
pub fn move_enemy_toward_player(enemy: &mut Enemy, arena: &Arena, dt_ms: u32)
    requires
        arena@.wf(),
    ensures
        *final(enemy) == chased(*old(enemy), chase_target(arena@.players), dt_ms as int),
{
    let t = match arena.holder() {
        Some(i) => arena.players[i].translation,
        None => {
            return;
        },
    };
    let dx = t.x as i64 - enemy.translation.x as i64;
    let dy = t.y as i64 - enemy.translation.y as i64;
    let d = normalize(dx, dy);
    let dist = length_of(dx, dy);
    if dist < SLOW_DOWN_RADIUS {
        enemy.speed = enemy.current_speed / 2;
    }
    if dist > SLOW_DOWN_RADIUS {
        enemy.speed = enemy.current_speed;
    }
    let x = step_toward(enemy.translation.x, d.x, enemy.speed, dt_ms);
    let y = step_toward(enemy.translation.y, d.y, enemy.speed, dt_ms);
    enemy.translation = Vec2 { x, y };
    enemy.current_speed = enemy.current_speed.saturating_add(SPEED_RAMP);
}

} // verus!

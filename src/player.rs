//! Players: their record, how one is spawned, and movement on the pitch.

use vstd::prelude::*;
use crate::geometry::{div_toward_zero, trunc_div, zero_vec, Vec2};
use crate::indicator::clamp_axis;
use crate::pitch::{BOTTOM_BOUND, LEFT_BOUND, RIGHT_BOUND, TOP_BOUND};

verus! {

/// Walking speed, in world units per second.
pub const PLAYER_SPEED: i64 = 500;

/// Lives a player starts with.
pub const STARTING_LIVES: u32 = 5;

/// Sprite sheet frames of the run and idle animations.
pub const RUN_FIRST: usize = 4;
pub const RUN_LAST: usize = 7;
pub const IDLE_FIRST: usize = 10;
pub const IDLE_LAST: usize = 13;

/// Where a player enters the pitch.
pub const SPAWN_X: i32 = 50_000;
pub const SPAWN_Y: i32 = -250_000;

/// A player on the pitch. `entity` is its handle in the world; `have_ball`
/// is the possession flag.
#[derive(Clone, Copy, Debug, PartialEq, Eq, Structural)]
pub struct Player {
    pub entity: u64,
    pub player_id: usize,
    pub gamepad: usize,
    pub lives: u32,
    pub have_ball: bool,
    pub translation: Vec2,
    pub velocity: Vec2,
    pub direction: Vec2,
    pub flip_x: bool,
    pub atlas_index: usize,
}

/// What a player's controls hold during one step: the four direction
/// buttons, and the movement stick (milli-units per axis) while it is moved.
#[derive(Clone, Copy, Debug, PartialEq, Eq, Structural)]
pub struct MoveInput {
    pub up: bool,
    pub down: bool,
    pub left: bool,
    pub right: bool,
    pub stick: Option<Vec2>,
}

pub open spec fn new_player(gamepad: usize, entity: u64) -> Player {
    Player {
        entity,
        player_id: gamepad,
        gamepad,
        lives: STARTING_LIVES,
        have_ball: false,
        translation: Vec2 { x: SPAWN_X, y: SPAWN_Y },
        velocity: zero_vec(),
        direction: zero_vec(),
        flip_x: false,
        atlas_index: IDLE_FIRST,
    }
}

/// The player joining with `gamepad`, as world entity `entity`.
pub fn spawn_player(gamepad: usize, entity: u64) -> (r: Player)
    ensures
        r == new_player(gamepad, entity),
{
    Player {
        entity,
        player_id: gamepad,
        gamepad,
        lives: STARTING_LIVES,
        have_ball: false,
        translation: Vec2 { x: SPAWN_X, y: SPAWN_Y },
        velocity: Vec2 { x: 0, y: 0 },
        direction: Vec2 { x: 0, y: 0 },
        flip_x: false,
        atlas_index: IDLE_FIRST,
    }
}

pub open spec fn clamp(v: int, lo: int, hi: int) -> int {
    if v < lo {
        lo
    } else if v > hi {
        hi
    } else {
        v
    }
}

pub open spec fn button_axis(neg: bool, pos: bool) -> int {
    (if pos { 1int } else { 0int }) - (if neg { 1int } else { 0int })
}

/// The stick as read: each axis clamped to `[-UNIT, UNIT]`.
pub open spec fn clamped_stick(a: Vec2) -> Vec2 {
    Vec2 { x: clamp_axis(a.x as int) as i32, y: clamp_axis(a.y as int) as i32 }
}

/// The frame shown after a step: running frames while the stick moves the
/// player, idle frames while it is held still, as before otherwise.
pub open spec fn next_atlas_index(index: usize, stick: Vec2) -> usize {
    if stick.x != 0 || stick.y != 0 {
        if index < RUN_FIRST || index > RUN_LAST {
            RUN_FIRST
        } else {
            index
        }
    } else {
        if index < IDLE_FIRST || index > IDLE_LAST {
            IDLE_FIRST
        } else {
            index
        }
    }
}

/// The player after one step of `dt_ms` milliseconds. Buttons move it at
/// `PLAYER_SPEED` along each pressed axis; a moved stick replaces that with
/// the stick's vector times `PLAYER_SPEED`, and becomes its velocity and
/// direction. The result is kept inside the bounds of the pitch.
pub open spec fn moved(p: Player, input: MoveInput, dt_ms: int) -> Player {
    let h = button_axis(input.left, input.right);
    let v = button_axis(input.down, input.up);
    let flip = if input.right { false } else if input.left { true } else { p.flip_x };
    match input.stick {
        None => Player {
            translation: Vec2 {
                x: clamp(p.translation.x + h * PLAYER_SPEED * dt_ms, LEFT_BOUND as int, RIGHT_BOUND as int) as i32,
                y: clamp(p.translation.y + v * PLAYER_SPEED * dt_ms, BOTTOM_BOUND as int, TOP_BOUND as int) as i32,
            },
            flip_x: flip,
            ..p
        },
        Some(raw) => {
            let a = clamped_stick(raw);
            Player {
                translation: Vec2 {
                    x: clamp(
                        p.translation.x + trunc_div(a.x * PLAYER_SPEED * dt_ms, 1000),
                        LEFT_BOUND as int,
                        RIGHT_BOUND as int,
                    ) as i32,
                    y: clamp(
                        p.translation.y + trunc_div(a.y * PLAYER_SPEED * dt_ms, 1000),
                        BOTTOM_BOUND as int,
                        TOP_BOUND as int,
                    ) as i32,
                },
                velocity: a,
                direction: a,
                flip_x: if a.x != 0 { a.x < 0 } else { flip },
                atlas_index: next_atlas_index(p.atlas_index, a),
                ..p
            }
        },
    }
}

fn clamp_exec(v: i64, lo: i32, hi: i32) -> (r: i32)
    requires
        lo <= hi,
    ensures
        r as int == clamp(v as int, lo as int, hi as int),
{
    if v < lo as i64 {
        lo
    } else if v > hi as i64 {
        hi
    } else {
        v as i32
    }
}

fn clamp_stick(a: Vec2) -> (r: Vec2)
    ensures
        r == clamped_stick(a),
{
    let x = if a.x < -1000 { -1000 } else if a.x > 1000 { 1000 } else { a.x };
    let y = if a.y < -1000 { -1000 } else if a.y > 1000 { 1000 } else { a.y };
    Vec2 { x, y }
}

/// Moves `p` by one step of `dt_ms` milliseconds under `input`.
pub fn move_player(p: &mut Player, input: &MoveInput, dt_ms: u32)
    ensures
        *final(p) == moved(*old(p), *input, dt_ms as int),
{
    let mut h: i64 = 0;
    let mut v: i64 = 0;
    if input.up {
        v = v + 1;
    }
    if input.down {
        v = v - 1;
    }
    if input.left {
        h = h - 1;
        p.flip_x = true;
    }
    if input.right {
        h = h + 1;
        p.flip_x = false;
    }
    let dt = dt_ms as i64;
    let x = p.translation.x as i64;
    let y = p.translation.y as i64;
    assert(-0x10_0000_0000_0000 <= h * PLAYER_SPEED * dt <= 0x10_0000_0000_0000
        && -0x10_0000_0000_0000 <= v * PLAYER_SPEED * dt <= 0x10_0000_0000_0000) by (nonlinear_arith)
        requires
            -1 <= h <= 1,
            -1 <= v <= 1,
            0 <= dt <= u32::MAX,
    ;
    match input.stick {
        None => {
            p.translation = Vec2 {
                x: clamp_exec(x + h * PLAYER_SPEED * dt, LEFT_BOUND, RIGHT_BOUND),
                y: clamp_exec(y + v * PLAYER_SPEED * dt, BOTTOM_BOUND, TOP_BOUND),
            };
        },
        Some(raw) => {
            let a = clamp_stick(raw);
            assert(-0x10_0000_0000_0000 <= a.x * PLAYER_SPEED * dt <= 0x10_0000_0000_0000
                && -0x10_0000_0000_0000 <= a.y * PLAYER_SPEED * dt <= 0x10_0000_0000_0000)
                by (nonlinear_arith)
                requires
                    -1000 <= a.x <= 1000,
                    -1000 <= a.y <= 1000,
                    0 <= dt <= u32::MAX,
            ;
            p.velocity = a;
            p.direction = a;
            let dx = div_toward_zero(a.x as i64 * PLAYER_SPEED * dt, 1000);
            let dy = div_toward_zero(a.y as i64 * PLAYER_SPEED * dt, 1000);
            p.translation = Vec2 {
                x: clamp_exec(x + dx, LEFT_BOUND, RIGHT_BOUND),
                y: clamp_exec(y + dy, BOTTOM_BOUND, TOP_BOUND),
            };
            if a.x != 0 {
                p.flip_x = a.x < 0;
            }
            if a.x != 0 || a.y != 0 {
                if p.atlas_index < RUN_FIRST || p.atlas_index > RUN_LAST {
                    p.atlas_index = RUN_FIRST;
                }
            } else {
                if p.atlas_index < IDLE_FIRST || p.atlas_index > IDLE_LAST {
                    p.atlas_index = IDLE_FIRST;
                }
            }
        },
    }
}

} // verus!

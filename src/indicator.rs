//! The aiming indicator carried by the ball holder.

use vstd::prelude::*;
use crate::geometry::{normalize, normalized, scale, scaled, zero_vec, Vec2, UNIT};

verus! {

/// Distance, in world units, from the holder at which the indicator is drawn.
pub const INDICATOR_OFFSET: i32 = 30;

/// The aiming indicator: its last aimed direction and its translation
/// relative to the holder. Aiming stores a normalised direction (length
/// `UNIT`, up to rounding, or zero); a throw normalises whatever is stored.
#[derive(Clone, Copy, Debug, PartialEq, Eq, Structural)]
pub struct DirectionIndicator {
    pub direction: Vec2,
    pub translation: Vec2,
}

/// The indicator as it is created: no direction yet, drawn above the holder.
pub open spec fn fresh_indicator() -> DirectionIndicator {
    DirectionIndicator {
        direction: zero_vec(),
        translation: Vec2 { x: 0, y: (INDICATOR_OFFSET * UNIT) as i32 },
    }
}

/// `c` limited to `[-UNIT, UNIT]`.
pub open spec fn clamp_axis(c: int) -> int {
    if c < -UNIT {
        -(UNIT as int)
    } else if c > UNIT {
        UNIT as int
    } else {
        c
    }
}

/// The indicator after its holder aims with stick `axis` (milli-units per
/// axis, clamped to `[-UNIT, UNIT]`): it points along the normalised axis
/// and sits `INDICATOR_OFFSET` units away in that direction.
pub open spec fn aimed(axis: Vec2) -> DirectionIndicator {
    let d = normalized(clamp_axis(axis.x as int), clamp_axis(axis.y as int));
    DirectionIndicator { direction: d, translation: scaled(d, INDICATOR_OFFSET as int) }
}

pub fn spawn_indicator() -> (r: DirectionIndicator)
    ensures
        r == fresh_indicator(),
{
    DirectionIndicator {
        direction: Vec2 { x: 0, y: 0 },
        translation: Vec2 { x: 0, y: INDICATOR_OFFSET * 1000 },
    }
}

fn clamp_axis_exec(c: i32) -> (r: i32)
    ensures
        r as int == clamp_axis(c as int),
{
    if c < -1000 {
        -1000
    } else if c > 1000 {
        1000
    } else {
        c
    }
}

/// The indicator pointed along the stick `axis`.
pub fn aim_indicator(axis: Vec2) -> (r: DirectionIndicator)
    ensures
        r == aimed(axis),
        -UNIT <= r.direction.x <= UNIT,
        -UNIT <= r.direction.y <= UNIT,
{
    let x = clamp_axis_exec(axis.x);
    let y = clamp_axis_exec(axis.y);
    let d = normalize(x as i64, y as i64);
    let t = scale(d, INDICATOR_OFFSET);
    DirectionIndicator { direction: d, translation: t }
}

} // verus!

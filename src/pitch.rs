//! The pitch: its walls, the area players may occupy, and random columns
//! for things that enter from the top.

use vstd::prelude::*;
use crate::geometry::Vec2;

verus! {

/// Half the thickness of a wall, as far as players keep clear of it.
pub const HALF_WALL: i32 = 5_000;
pub const LEFT_WALL: i32 = -640_000;
pub const RIGHT_WALL: i32 = 640_000;
pub const BOTTOM_WALL: i32 = -460_000;
pub const TOP_WALL: i32 = 512_000;
pub const PLAYER_PADDING: i32 = 10_000;

/// Half a player's width and height.
pub const HALF_PLAYER_WIDTH: i32 = 2_500;
pub const HALF_PLAYER_HEIGHT: i32 = 4_000;

/// The area a player's centre may occupy.
pub const LEFT_BOUND: i32 = LEFT_WALL + HALF_WALL + HALF_PLAYER_WIDTH + PLAYER_PADDING;
pub const RIGHT_BOUND: i32 = RIGHT_WALL - HALF_WALL - HALF_PLAYER_WIDTH - PLAYER_PADDING;
pub const BOTTOM_BOUND: i32 = BOTTOM_WALL + HALF_WALL + HALF_PLAYER_HEIGHT + PLAYER_PADDING;
pub const TOP_BOUND: i32 = TOP_WALL - HALF_WALL - HALF_PLAYER_HEIGHT - PLAYER_PADDING;

/// Thickness of the drawn border walls, and half of it.
pub const BORDER_THICKNESS: i32 = 5_000;
pub const HALF_BORDER: i32 = 2_500;

/// Width and height of the pitch.
pub const PITCH_WIDTH: i32 = 1_280_000;
pub const PITCH_HEIGHT: i32 = 1_024_000;

/// A fixed wall: its centre and its full width and height.
#[derive(Clone, Copy, Debug, PartialEq, Eq, Structural)]
pub struct Border {
    pub translation: Vec2,
    pub size: Vec2,
}

/// The four walls: bottom, top, left and right, each lying just outside
/// its wall line.
pub open spec fn borders() -> Seq<Border> {
    seq![
        Border {
            translation: Vec2 { x: 0, y: (BOTTOM_WALL + HALF_BORDER) as i32 },
            size: Vec2 { x: PITCH_WIDTH, y: BORDER_THICKNESS },
        },
        Border {
            translation: Vec2 { x: 0, y: (TOP_WALL + HALF_BORDER) as i32 },
            size: Vec2 { x: PITCH_WIDTH, y: BORDER_THICKNESS },
        },
        Border {
            translation: Vec2 { x: (LEFT_WALL + HALF_BORDER) as i32, y: 0 },
            size: Vec2 { x: BORDER_THICKNESS, y: PITCH_HEIGHT },
        },
        Border {
            translation: Vec2 { x: (RIGHT_WALL + HALF_BORDER) as i32, y: 0 },
            size: Vec2 { x: BORDER_THICKNESS, y: PITCH_HEIGHT },
        },
    ]
}

pub fn spawn_map_borders() -> (r: Vec<Border>)
    ensures
        r@ == borders(),
{
    let r = vec![
        Border {
            translation: Vec2 { x: 0, y: BOTTOM_WALL + HALF_BORDER },
            size: Vec2 { x: PITCH_WIDTH, y: BORDER_THICKNESS },
        },
        Border {
            translation: Vec2 { x: 0, y: TOP_WALL + HALF_BORDER },
            size: Vec2 { x: PITCH_WIDTH, y: BORDER_THICKNESS },
        },
        Border {
            translation: Vec2 { x: LEFT_WALL + HALF_BORDER, y: 0 },
            size: Vec2 { x: BORDER_THICKNESS, y: PITCH_HEIGHT },
        },
        Border {
            translation: Vec2 { x: RIGHT_WALL + HALF_BORDER, y: 0 },
            size: Vec2 { x: BORDER_THICKNESS, y: PITCH_HEIGHT },
        },
    ];
    assert(r@ =~= borders());
    r
}

/// Relies on rand's `thread_rng` and `Rng::gen_range`: a value drawn from
/// `lo..hi`, which `gen_range` requires to be non-empty.
#[verifier::external_body]
pub(crate) fn random_in_range(lo: i32, hi: i32) -> (r: i32)
    requires
        lo < hi,
    ensures
        lo <= r < hi,
{
    rand::Rng::gen_range(&mut rand::thread_rng(), lo..hi)
}

/// A random column between the side walls, where enemies and cars enter.
pub fn random_column() -> (x: i32)
    ensures
        LEFT_WALL <= x < RIGHT_WALL,
{
    random_in_range(LEFT_WALL, RIGHT_WALL)
}

} // verus!

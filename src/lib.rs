//! Game logic of a two-player arena: ball possession, aiming and throwing,
//! the ball's return timer, player and enemy movement, lives and the
//! application's state switches.
//!
//! Positions are fixed point: one world unit is `geometry::UNIT` (1000)
//! milli-units. Times are in milliseconds.

pub mod geometry;
pub mod indicator;
pub mod pitch;
pub mod player;
pub mod possession;
pub mod state;
pub mod buttons;
pub mod menu;
pub mod enemy;
pub mod car;
pub mod sprites;

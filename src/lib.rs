//! A small arcade shooter's game rules on a fixed-point grid: the player ship
//! moves and fires lasers, lasers fly upward and leave the screen, one enemy at
//! a time appears at a random place, and a laser that touches an enemy removes
//! both.
//!
//! Distances are counted in steps, `SUBUNITS` steps to a world unit. A frame
//! lasts `1 / FRAMES_PER_SECOND` of a time unit, so an object with a speed of
//! `s` units per time unit moves exactly `s * STEP_PER_SPEED` steps per frame.

pub mod collision;
pub mod enemy;
pub mod geometry;
pub mod laser;
pub mod player;
pub mod world;

pub use collision::{collision_flags, touches_any};
pub use enemy::{enemy_spawn, Enemy, ENEMY_SCALE_PERCENT};
pub use geometry::{
    Aabb, Speed, SpriteSize, WinSize, FRAMES_PER_SECOND, SPAWN_MARGIN, STEPS_PER_PERCENT,
    STEP_PER_SPEED, SUBUNITS,
};
pub use laser::{Laser, LASER_SCALE_PERCENT};
pub use player::{Input, Player, PLAYER_SPEED};
pub use world::{World, COORD_LIMIT};

//! Simulation core of a turn-based, tile-grid dungeon game: level generation
//! by recursive space partition, per-cell visibility, and one-turn-at-a-time
//! resolution of movement, door interaction and combat.

pub mod combat;
pub mod dice;
pub mod fov;
pub mod game;
pub mod gen;
pub mod map;
pub mod monster;
pub mod player;
pub mod point;
pub mod rng;
pub mod textbox;
pub mod tile;
pub mod util;

//! A grid-based snake simulation engine: a player snake and autonomous
//! enemies move on a bounded arena, eat food, grow, and collide. The crate
//! holds the fixed-tick movement and growth state machine, the weighted
//! enemy steering heuristic, the running-average food centroid, and the
//! session lifecycle; rendering, input devices and score inference are
//! collaborators outside it.

pub mod arena;
pub mod center;
pub mod engine;
pub mod events;
pub mod geometry;
pub mod rng;
pub mod score;
pub mod snake;
pub mod steering;
pub mod timers;

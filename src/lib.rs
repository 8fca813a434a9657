//! Gameplay simulation core of a small tower-defense game: enemies are spawned
//! on a cadence, sensors report which entities overlap, enemies and towers pick
//! targets, towers shoot their targets on a weapon period, and dead entities are
//! removed one tick after they die.
//!
//! Time is counted in nanoseconds and entities are plain `u64` identifiers kept
//! in an explicit table.
pub mod timer;
pub mod entity;
pub mod config;
pub mod world;
pub mod simulation;
pub mod laws;

//! An integer model of a small predator / prey / plant ecosystem: entities
//! wander inside a rectangular grid, the simulation spawns new ones over
//! time, and trackers keep a sliding window of population counts.
//!
//! Lengths are measured in thousandths of a world unit and times in
//! milliseconds, so every quantity is an exact integer.

pub mod area_chart;
pub mod entity;
pub mod plot;
mod random;
pub mod simulation;
pub mod simulation_space;
pub mod vector;

